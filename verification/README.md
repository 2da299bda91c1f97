# moq-vaapi

A small VA-API H.264 hardware encoder for Linux, in two halves.

`src/` is the library: everything that is decided or computed, verified with
Verus. It never talks to a driver. An operation that needs one hands out what
to ask, as a plain value, and the function named after the answer takes the
answer back and says what follows.

`app/` is the other half: it loads libva at run time, asks, and hands back the
answers. It decides nothing.

## What the library holds

- `bitstream_utils` and `codec::h264` write H.264 parameter sets and slice
  headers. `codec::h264::syntax` states which elements each is made of;
  `codec::h264::synthesizer` is proved to write exactly those, and
  `codec::h264::readback` that whoever reads those elements out of the unit
  gets their values back, and meets no start code in it.
- `encode` is the encoder. `encode::setup` opens one, `encode::stream` picks
  the level and the parameter sets, `encode::params` builds what a driver is
  handed with every frame, `encode::upload` fills an image. `encode::groups`
  and `encode::wire` state what holds of a stream as a whole.
- `vpp` is the video processor: scaling, color conversion, re-tiling.
- `decode`, `display`, `dmabuf`, `color`, `buffer` and `bindings` are the
  values that both halves share.

## A frame

```text
encode_nv12   -> Upload      fill the surface     -> uploaded  -> Submission
encode_dmabuf -> ImportFrame import the buffer    -> imported  -> Submission,
                                                     or a blit -> Submission
Submission    -> render it, read the coded buffer -> submitted -> Annex-B bytes
```

The encoder is low-latency only: no B-frames, one reference frame, and the
parameter sets in front of each IDR.
