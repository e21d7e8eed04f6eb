# bn_agent

A plugin-based agent around a language model. Plugins bring messages in, register tools and hear
events; the agent asks the model, runs the tools it asks for and sends its answers back.

* `src/` is the library: what the agent decides, as functions and state machines on plain values,
  with contracts that Verus proves. Calls into other crates (JSON text, CSV tables, random ids and
  numbers) stand behind small functions whose contracts are trusted; each says so.
* `app/` is the program: actors, HTTP, databases, dynamic libraries and clocks. It performs what the
  library asks for and hands back what came of it.
* `tests/` runs the library on concrete values.

| Part | Modules |
|---|---|
| Messages to answers | `inbound`, `pipeline`, `effect`, `chat`, `peer`, `router`, `text_stream` |
| The model | `llm_config`, `llm_chat`, `llm_text`, `llm_stream`, `llm_reply`, `retry`, `active`, `rate` |
| Loops towards a goal | `agent_loop`, `loop_table`, `agent_runner` |
| Tools and plugins | `tool`, `tool_exec`, `plugins`, `host`, `bus`, `event` |
| What is kept | `chat_store`, `session_text`, `usage`, `metrics` |
| The small host | `core_llm`, `core_agent` |
| HTTP | `server` |
| Foundations | `json`, `json_record`, `text`, `numbers`, `order`, `string_map`, `ids` |
