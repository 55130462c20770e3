# of_core

The decision logic of a football match engine, verified with Verus.

Positions are tenths of a metre (`Coord10`), short distances centimetres,
ratios thousandths; every function in `src/` carries a contract over these
integer values.

- `src/` — the verified library: off-ball objectives (scheduling, triggers,
  collisions), the five-channel positioning grid, the occupancy grid and its
  space queries, the distance matrix, player and team queries, opponent
  analysis and counter bonuses, and the phase machines of tackles, passes,
  shots, dribbles and set pieces, with the laws they keep.
- `tests/` — tests of the library on concrete values.
- `app/` — ordinary Rust around the library: the parts that work in metres
  and seconds with floating point or draw random numbers (technique models,
  expected goals, ball flight, the dice of tackles and set pieces), and serde
  copies of library types.
