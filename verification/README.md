# fluffsetup

First-boot account and system-name setup for Fluff Linux. The library in
`src/` holds every rule of the setup, each function with a contract that
Verus proves:

- `hostname`: the system name rules and the offered `FL-AA0000` name;
- `account`: the login name and display name rules, and how the account that
  setup reserved is recognized in the account database;
- `transliterate`, `username`: the hidden login name derived from the display
  name, and its numbered variants when a name is taken;
- `progress`: the recovery record that lets an interrupted first boot resume;
- `backend`: the setup window's behavior as a state machine;
- `details`, `commands`: what the privileged step reads, checks and runs;
- `login_config`, `cleanup`: what cleanup removes;
- `text`, `number`: the string and number operations the rules are written in.

`app/` is the program around it: the Qt interface, reading and writing files,
running ICU and the privileged commands, and the terminal setup.
