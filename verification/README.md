# roguelike

The game logic of a tile-based rogue-like, written in Verus and verified.
Drawing, windowing, input reading and randomness are left to the game that
uses it; this library decides what they act on.

Modules under `src/`:

- `rect` – non-empty rectangles and points with clamped coordinates.
- `collision` – when rectangles collide, the hits the player takes, the
  projectile and melee hits on an enemy, coins picked up, crates pushed.
- `power` – powers lying on the floor, their damage and collection.
- `background` – which map tiles the screen shows and where they are drawn.
- `enemies` – where enemies spawn, the movement timer, who drops gold.
- `input` – how the movement keys change the player's motion, and when it
  attacks or fires.
- `frame` – what each frame of the game loop does.
- `draw` – weapon placement and swing, camera, start position, screen
  positions.
- `projectile` – projectile kinds and their images.
- `indices` – the indices of a sequence that satisfy a predicate.
- `gamedata` – the tile size.

Every public function carries a contract; the laws of the library are
public proof functions named `lemma_*`. The tests under `tests/` run the
library on concrete values.
