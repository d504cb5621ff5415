# neobirth

Verified core of a TB-303 style acid synthesizer for the Adafruit
NeoTrellis M4.

- `src/` is the library, proved with Verus: the step sequencer
  (`sequencer`, `sequencer::pattern`), the keypad edge detector and
  pattern editor (`ui::controls`), the LED display (`ui::leds`,
  `colors`), and the oscillator waveform selector (`audio::oscillator`).
- `app/` is the firmware around it: peripheral setup, the audio and
  sequencer-clock interrupts, the floating point signal chain
  (oscillator, filter, envelope, DAC conversion) and the frequency
  table.
- `tests/` exercises the library on concrete patterns and key grids.
