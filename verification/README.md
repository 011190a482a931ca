# model_rig

The logic of a small tool that rigs, poses and sculpts a model, written in Verus
and proved against its contracts, and the program around it.

- `src/` is the library. It holds the bone forest and its document (`rig*`,
  `bones`, `forest_edit`), driver graphs and how they are evaluated (`driver*`,
  `graph`, `evaluate`), IK and soft chains (`rig_chains`, `pull`, `soft_sim`),
  sculpting and weights (`sculpt`, `mesh_faces`, `weights`), the tools and the
  session (`tools`, `session`, `frame`), the panels (`toolbar`, `node_*`,
  `*_panel`, `bone_list`, `bone_tree`, `inspector`), macros (`script*`) and the
  frame profile (`cpu_*`). Laws that span functions are public proof functions
  whose names begin with `law_`.
- `tests/` runs the library on concrete values.
- `app/` is the program: window, GPU, widgets, files, Lua, and all arithmetic on
  floating-point numbers. The library carries such a number as its bit pattern
  (`geom::Scalar`) and compares it there (`order`); where it needs a sum or a
  product it is handed the function that computes it.
