# fjord_monitor

A desktop widget for COSMIC that shows CPU, memory and GPU load as a fjord
scene: halibut, penguins on floes and an aurora that brightens with heat.

- `src/` is the verified library:
  - `rng` — the xorshift generator all scenery is placed from;
  - `config` — corners, surface placement, geometry and the frame-rate clamp;
  - `surface` — when the layer surface is rebuilt or replaced;
  - `text` and `sensors` — trimming, numeric prefixes, the `nvidia-smi` row,
    the choice of DRM card and of CPU temperature sensor;
  - `wildlife` — penguin count, facing, jackets and per-animal seeds.
- `app/` is the libcosmic program around it: the canvas drawing (all of it
  floating point), the settings store, and the readings taken through
  `sysinfo`, sysfs and `nvidia-smi`.
- `tests/` exercises the library on concrete values.
