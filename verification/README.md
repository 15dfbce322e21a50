# renderer

The verified core of a physically based WebGL renderer, written in Verus.

`src/` holds everything the renderer decides without a GPU, each function
with a contract that Verus proves:

- asset loaders: KTX2 container classification and level checks (`ktx2`),
  `EXT_meshopt_compression` objects and decode ranges (`meshopt`), Draco
  decoding and attribute expansion (`draco`), glTF attribute slots (`gltf_attributes`),
  glTF asset URIs (`asset_uri`), animation keyframes (`keyframes`),
  morph-target layout (`morph`);
- USD and MaterialX: the in-memory asset resolver and mesh topology (`usd`),
  shading-subtree and `.mtlx` reference decisions (`usd_scene`), `.usda`
  reference scanning (`usda`), OpenPBR inputs (`openpbr`) and MaterialX
  surface extraction (`mtlx`);
- engraving configuration rules, the engraving texture's mip chain and the
  scene checks of an engraving session (`engraving`, `engraving_session`);
- animation: mirroring (`mirror`), channel lookup and transitions
  (`transition`), poses (`pose`), scaled animation groups (`scaling`) and
  the animation state graph (`graph`);
- render-pass bookkeeping: G-buffer defines, material shader defines, shader
  uniform lists, picking, jump-flood buffers, transmission slab thickness
  (`gbuffer`, `shader_defines`, `programs`, `picking`, `jfa`,
  `transmission`).

Floating-point settings are carried as IEEE-754 bit patterns (`f32_bits`).
Calls into `ktx2`, `ruzstd`, `quick-xml` and `draco-core` go through small trusted
functions whose contracts state what those crates promise.

`app/` holds what needs floating point or serde: `engraving_config.json`
parsing, meshopt JSON members, the OpenPBR surface model filled from a
MaterialX document, transmission and lookup-table arithmetic, and the
players and frame loop that carry out the animation graph's decisions.

`tests/` exercises the library on concrete inputs.
