# robocup

Verified logic of a robot soccer stack: a physics simulator that robot
processes drive over HTTP, and the firmware of the robots' motor controller.

- `src/` is the library, verified with Verus:
  - `game`: teams, ticks, game phases, scores, robot sessions and identifiers,
    the errors of the simulator API and the HTTP status each is answered with.
  - `state`: the game state machine: registration before the first tick,
    collecting one command per robot per tick, scoring, and the advance to
    the next tick until the game's length is reached.
  - `field`: kickoff placements and goal detection from collision contacts.
  - `motor`: motor speed limiting and the integer side of the wheel speed
    feedback loop; encoder counting.
  - `sensor`: status codes and I2C framing for the time-of-flight sensor driver.
  - `link`: the COBS-framed serial control link (through the `cobs` crate).
  - `text`, `keyed`: decimal rendering and string-keyed sequences as maps.
- `tests/` exercises the library with concrete values.
- `app/` is the simulator server (tokio, axum, rapier2d physics) and the
  floating-point kinematics and PID parts of the firmware.
