# camille

The decision logic of Camille, a 3D avatar driven by a webcam and by voice,
verified with Verus.

- `src/` — the verified library:
  - `mic`: the capture ring that keeps the latest microphone samples, and the
    queries made on it (latest window, samples since a position);
  - `voice`: wake-word detection in a transcript, the command that follows it,
    the spoken reply, and the listening loop's decisions;
  - `expressions`: emotion and mouth-shape morph tables, the mouth shapes of a
    spoken text, the choice of face morphs among a model's blend shapes and the
    parts of each morph's target weight;
  - `controls`: held camera keys and what each key press asks for;
  - `scene`: finding nodes by name; `jointtest`: calibration axes;
  - `tts`: the shared state of the speech output;
  - `text`: character helpers, trimming of Unicode white space, and the
    standard-library lowercase and alphanumeric calls that the others reason
    about.
- `app/` — the program around it: rendering, camera, microphone and speaker
  devices, speech recognition and synthesis, and the floating-point animation.
- `tests/` — runs of the library on concrete values.
