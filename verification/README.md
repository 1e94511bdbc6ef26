# Data Station

A terminal front end that answers requests with a team of small local
models: a manager model splits the request into tasks, and each task goes to
an agent (shell, SQLite database, or plain language) whose answer is handed
to its tool.

- `src/` is the verified library: task parsing, prompt filling, the
  preparation of SQL queries and shell commands and the reading of their
  results, the commands typed at the prompt, and the state machines of an
  agent run and of the progress relay.
- `app/` is the program around it: the terminal loop, the model calls, the
  database, the shell and the template files.
