# rog_aura

ASUS Aura lighting logic, verified with Verus.

- `src/gz302_rear.rs`: the GZ302EA rear-window reports (Aura wake sequence,
  HID LampArray control and LampMultiUpdate colour reports), with laws on
  how every lamp is listed.
- `src/device.rs`: device types, power zones, and how a USB product ID and a
  board name resolve to a device role.
- `src/lighting.rs`: colours and brightness levels.
- `src/colour_hex.rs`: the "#RRGGBB" colour text, written and read back.
- `src/aura_objects.rs`: which bus objects carry the Aura interface, in path
  order.
- `src/aura_page.rs`: the settings page's decisions (device names and order,
  offered modes, shown power zones, which rear light to keep in step, and
  the steps from device and user events to page actions, which ignore stale
  ones; device selection; the brightness change with its rear light).
- `src/selection.rs`: the page's current-selection check.
- `app/`: serde forms of the device types and the colour-text guard.
