# vent_engine

The core of the Vent game engine, written in Verus: the data structures and
decisions of the engine, each with a contract that Verus proves.

## Layout

- `src/` — the verified library.
  - `ecs/` — entities, archetypes and the world that stores components by
    kind; `ecs/laws.rs` holds the properties that span operations (a value
    added is read back, a removed component or a deleted entity is gone
    while every other entity keeps its components, each live entity is
    listed once, distinct kinds have distinct ids). `World::lemma_view_wf`
    carries a world's well-formedness over to its abstract state, so that
    the laws apply to any world built by the library's operations.
  - `assets/` — the named asset pool, the file reader's root, the project
    file's location.
  - `timing.rs` — the stopwatch and the time spans it reports.
  - `math.rs` — integer vectors.
  - `render/` — what the renderer decides: queue families, depth format,
    memory type, swapchain settings, sampler settings, cull mode, the
    commands and layout changes of mip generation (every level ends read by
    shaders), index buffers, and the grouping of meshes by pipeline.
  - `logging.rs` — the colour of each log level.
- `tests/` — tests of the library on concrete values.
- `app/` — the Vulkan calls, file and clock access, the logger, and the
  floating-point math, around the library.
