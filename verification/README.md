# kamino

The rules of a small puzzle game: five pieces made of 50-pixel squares are
dragged with the mouse, turned with the right button, and dropped on a 3x5
board that remembers which of its squares the placed pieces cover.

- `src/` is the rules, verified with Verus: points in whole pixels
  (`point`), pieces and their geometry (`piece`, `shapes`, `piece_builder`),
  the board (`board`), the cursor (`cursor`), the game systems (`game`), and
  a simpler variant of the rules without board occupancy (`triste`). Each system is specified
  by an `*_outcome` function, and the laws of the rules (four quarter turns
  are the identity, snapping is idempotent, lifting a placed piece restores
  the board, ...) are proof functions beside them.
- `app/` is the Bevy game around the rules: window, camera, input events,
  sprites, and the conversion between the engine's `f32` vectors and the
  rules' integer points.
- `tests/` runs the rules on concrete games.
