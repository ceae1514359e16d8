# Loomis

A coding agent for the terminal. `src/` is its verified core: the state of the
interface and what every key, paste, mouse event and agent event does to it;
how messages, the input, the status bar and the overlays are laid out; the
tools and the hooks around them; the sandbox for shell commands; and the
bookkeeping of conversations, plans, skills and profiles. Every function
states what it does, and Verus proves that it does.

| Module | What it holds |
|--------|---------------|
| `text`, `json`, `memory` | texts, arguments of tools, conversations |
| `sandbox` | the policy for commands, quotas, the audit trail, environments |
| `tools` | what each tool accepts and answers |
| `hooks` | plan mode, the sandbox, prompts, skills, profiles, traces |
| `tui` | the interface |
| `compact`, `app` | summaries of long conversations, how the agent is put together |

`app/` is the program around it: the terminal, files, processes, the clipboard,
and the thread on which the agent runs. It has a place for a client of a model
and none linked into it. `tests/` runs the library on concrete values.

Numbers with decimals (results of the calculator, sizes, shares of the screen)
are computed in `app/` and reach the library as texts.
