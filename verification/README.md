# prime

A terminal assistant that asks a language model for a plan, shows the plan,
and carries out its tool calls (shell commands, file reads and writes,
directory listings, memory notes and self-made tool scripts) after the
user's confirmation.

`src/` is the verified library: the parsing of the model's responses and
their `primeactions` blocks, the streaming of a response, the texts shown
to the user and sent to the model, the conversation log, the memories, the
command cache and retry strategies, file and directory views, the console's
commands and completions, the web fetch rules, templates and the session's
setup. Each public function states its result in its contract, and the laws
of the library are proof functions beside the code they speak of.

`app/` is the program around it: the terminal, the files, the processes,
the HTTP client and the model service.

`tests/` runs the library on concrete values.
