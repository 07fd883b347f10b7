# facecam

User-space control plane for the Elgato Facecam (USB `0fd9:0078`) and Facecam Pro (`0fd9:0079`) on
Linux: device probing, a normalization daemon that forwards frames to v4l2loopback and recovers a
camera that stops delivering, a control client, a compatibility test suite, and a live viewer.

The project has two halves.

- `src/` is the library, verified with Verus. It holds the device and quirk tables, the encoding of
  V4L2 calls, the search for capture nodes, the choice of video modes, the recovery ladder, the
  answers to daemon commands, the tests of the suite, the decoding of pictures, and the reports. It
  does no I/O. A task that takes several steps on a device is a state machine: it says what to do
  next, and takes what came of it.
- `app/` is the program around it: arguments, files, sockets, ioctl calls, the window. It makes the
  steps that the library asks for.

`tests/` runs the library on concrete values.

## What is proved

Every public function states what it returns or changes. Beyond that, the modules prove laws as
public proof functions, among them:

- a broken format is never chosen for streaming, and source and sink get the same mode (`pipeline`);
- the capture loop fails only after an in-place restart of the stream brought no frame (`streaming`),
  and a USB reset comes only after a reopened pipeline failed without a frame (`supervisor`); a daemon
  whose resets work never gives up, if it may recover at least twice in a row;
- a restart that is asked for ends the session and runs the pipeline again (`streaming`,
  `supervisor`);
- after a reset that worked, an operation is not tried again before the device is back or was waited
  for long enough, and a device is authorized again only after it was deauthorized (`recovery`);
- a format is called working only where frames came from it (`probe`);
- the node search finds a capture node wherever the tree holds one (`nodes`);
- the enumeration of controls lists what the device has, in its order (`v4l2`);
- every captured frame is counted as written or as dropped (`streaming`).

## What is trusted

Calls into outside crates and a few functions of std stand behind small wrappers whose contracts
are not proved: `jpeg_decoder` in `picture`, `chrono` in `clock`, and string functions in `text`.
The doc comment of each says what is claimed.

## Tools

    facecam probe detect        # find and fingerprint cameras
    facecam daemon              # capture and forward to /dev/video10
    facecam ctl status          # ask the daemon
    facecam harness full        # run the test suite
    facecam visual              # live view
