use vstd::prelude::*;

verus! {

/// The shots the player can fire.
#[derive(Clone, Copy, Debug, PartialEq, Eq, Structural)]
pub enum ProjectileType {
    Bullet,
    Fireball,
}

/// The image a projectile of the given kind is drawn with.
pub fn projectile_texture(p: ProjectileType) -> (r: &'static str)
    ensures
        r@ == (match p {
            ProjectileType::Bullet => "images/abilities/bullet.png"@,
            ProjectileType::Fireball => "images/abilities/beng.png"@,
        }),
{
    match p {
        ProjectileType::Bullet => "images/abilities/bullet.png",
        ProjectileType::Fireball => "images/abilities/beng.png",
    }
}

} // verus!
