# v4

The bookkeeping of a small real-time rendering engine, verified with Verus, and the engine
around it.

`src/` is the library. A scene holds entities in a tree, the components of each entity in one
range of a single list (sorted stably by rendering order), materials that draw the components
of the entities attached to them, render pipelines (built ones, and those queued to be built),
compute shaders, and the requests and workloads it hands to the engine. Contracts describe each
operation over abstract views (`SceneView`, `MaterialView`, ...); `laws.rs` proves properties
that relate several operations. The library also decides how textures are created and filled
(`texture.rs`, `image_data.rs`), what a frame draws and in which order (`Scene::render_plan`,
`MeshComponent::draw_calls`), what each redraw of the window does and which mouse buttons are
down (`engine.rs`), what a camera does with Escape (`camera.rs`), and checks the descriptors
that declare components and scenes (`descriptors.rs`).

GPU objects, workload outputs and engine actions are carried as associated types of
`EngineTypes`, so the library never looks inside them.

`app/` is the engine: wgpu device and surface, winit event loop, glyphon text, the workload
thread, and the floating-point parts of the components (transforms, camera movement, mesh
loading). It runs the
library's decisions on the GPU and the window.

`tests/` exercises the library on concrete values.
