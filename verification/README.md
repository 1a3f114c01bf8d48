# gerritbot

A bot that tells Webex Teams (formerly Cisco Spark) users about what happens
to their Gerrit changes: votes, comments, invitations, merges and abandoned
changes. Users talk to the bot in direct messages (`enable`, `disable`,
`status`, `filter <regex>`, ...).

The library under `src/` holds the bot's logic, verified with Verus:

- `state`, `user`, `flags`: the users and their settings;
- `command`: how a message text is read as a command;
- `bot`: what the bot answers to commands and whom it notifies about Gerrit
  events, handing messages to an external formatter where needed;
- `rate_limit`: holding back notifications that were sent recently;
- `session`: the decisions taken while talking to Gerrit over SSH (running
  commands, following the event stream, fetching change details), as state
  machines;
- `spark`, `sqs`, `config`, `ssh`: the rules of the webhook, the SQS queue,
  the configuration and the key files;
- `spark_bot`, `gerrit`: the earlier bot, which knows users by their person id;
- `laws`: properties that hold across calls.

`app/` is the program around it: configuration, the Lua message formatter,
SSH, HTTP and SQS.
