# fyrox-graphics-wgpu (verified core)

The decisions and data structures of Fyrox's wgpu graphics backend, written
in Verus with their contracts proved.

- `src/` — the library, verified:
  - `program` and `shader`: rewriting Fyrox GLSL for naga/wgpu (separate
    textures and samplers, resource declarations, built-in renames), the
    resource-list check, the bind group layout, compilation to SPIR-V;
  - `shader_lint`: the linear color-space lint;
  - `uniform_pool`, `bind_group_cache`, `pipeline`: the uniform buffer
    sub-allocator, the bind group cache and the pipeline variant catalog;
  - `framebuffer`, `geometry_buffer`, `server`, `color_space`,
    `render_pass`, `metrics`: draw planning, fixed-function state mapping,
    vertex layouts, adapter tiers, surface format choice and counters;
  - `text`: the string operations the shader rewriting is specified with;
  - `gpu`: the wgpu handles and calls the library relies on;
  - `glsl`: the calls into naga;
  - `pipeline_cache`: the render pipelines of draw calls, by key.
- `tests/` — tests run against the compiled library (GPU objects come from
  wgpu's no-op device).
- `app/` — the code that creates wgpu objects, records GPU commands and logs,
  following the library's decisions.

What is not proved:

- Shader compilation calls naga's GLSL front end, validator and SPIR-V
  writer. Their results are named, not specified, and naga holds
  `unreachable!()` and `unimplemented!()` arms that no known shader reaches
  but that nothing here excludes: compiling a shader may panic inside naga.
  Modules are written to SPIR-V only after they pass naga's expression
  checks, which rule out the writer's known `unimplemented!()` cases.
- wgpu calls panic on validation errors through wgpu's default error
  handler; the library's contracts keep their inputs within wgpu's rules,
  but a lost device or a buffer destroyed elsewhere is not visible to them.
