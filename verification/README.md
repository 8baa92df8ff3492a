# uhid-battery

Publish a battery level to **UPower** - and so to KDE's, GNOME's or any other
desktop's power applet - for a peripheral the kernel has no driver for.

UPower reports what the kernel exposes under `/sys/class/power_supply`. A daemon
that knows the charge of a wireless mouse or headset creates a virtual HID device
through `/dev/uhid` whose report descriptor declares a battery. `hid-input`
registers the power supply, UPower picks it up, and the desktop lists the device
next to the others.

* `src/` decides, and is verified with Verus: the wire format (`event`, `bytes`),
  the report descriptors and the udev rule (`descriptor`), what a descriptor
  declares (`hid`), the life of a battery (`battery`, `schedule`, `clock`), which
  descriptors to adopt and what a read or write amounts to (`handle`), which
  power supply is ours (`sysfs`), and the strings all of them need (`text`). The
  functions named `law_*` state what holds of the library as a whole.
* `app/` performs the system calls that `src/` asks for, and nothing else.
* `tests/` runs the library without hardware or privileges.

Every multi-byte integer is in the machine's byte order, whichever that is. Time
is counted in nanoseconds from an origin that the caller picks once per battery.
