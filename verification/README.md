# usb_camera

A Linux USB/UVC color camera as a node of a dataflow: it captures frames through
V4L2 on each `tick`, converts them, and sends them as `forge_msgs` image messages.
The logic is a Verus library with proved contracts; the program around it does the
input and output.

## Layout

`src/` is the verified library.

- `config`, `cli`: the configuration and its ranges, the command line.
- `list_devices`, `environment`: which devices are color cameras, what can be said of
  device nodes without opening them.
- `negotiation`, `fourcc`: which device, which format, how YUV samples are read, when
  a busy device is tried again.
- `backend`, `backend_v4l`, `channel`: frames, the channel that the capture thread hands
  them over with, and the record of what a channel was used for.
- `capture_health`, `capture_loop`, `capture_error`: gaps, stalls, damaged buffers and
  timeouts of the stream, and what the capture loop does about them.
- `pixels`, `codec`, `buffer`: conversion to RGB, and what is left to the `image`,
  `ndarray` and `bytes` crates.
- `message`, `batch`: image messages and the Arrow batches that carry them.
- `metadata`, `observability`: the metadata of a message and its timing.
- `snapshot`, `node`, `sink`: a still picture, the camera node, and the node that
  reports what it receives.
- `text`, `order`: texts and sorting.

Proof functions named `law_..` state what holds across functions. What is taken from
other crates without proof stands in functions marked `external_body`, in
`assume_specification` items and in type declarations, each with a comment that says
what is claimed.

`app/` is the program: it reads files and the command line, runs the capture thread,
and talks to V4L2 and Dora. Called as `usb_camera_test_sink` it is the reporting node.

`tests/` runs the library, with the outside crates linked.
