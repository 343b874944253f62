# cmsisdap

Recognition and selection of CMSIS-DAP debug probes among the USB devices and
HID entries of a system, verified with Verus.

- `src/` is the verified library. It works on plain descriptions of devices
  (`model`): what the operating system reports of a USB device and its
  interfaces, the descriptors of a configuration, and the entries of the HID
  device list. `text` holds character-level helpers; `recognition` tells
  CMSIS-DAP texts and ids, the firmware denylist and the HID report size;
  `discovery` lists the probes of a system; `descriptors` reads a
  configuration descriptor through nusb's parser; `opening` picks the
  interfaces and endpoints to claim for v2 and v1 operation and decides
  after each claim; `selection` plans how to open the probe a user selected
  and decides after each attempt; `laws` states and proves properties that
  span these functions.
- `app/` enumerates devices with nusb and hidapi, opens them and claims
  interfaces as the library directs, and hands it plain descriptions and
  descriptor bytes.
- `tests/` exercises the library on concrete devices.
