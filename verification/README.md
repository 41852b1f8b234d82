# line_bridge

The client side of the LINE bridge of thClaws: a user chats with an agent over LINE, and a relay
passes messages between LINE and the machine that the agent runs on.

- `src/` is a library verified with Verus. It computes the relay's addresses, makes agent output
  fit for LINE, decides where a question to the user goes, and lays down the steps by which the
  binding is saved, loaded and deleted.
- `app/` performs what the library decides: file operations, the environment, the terminal, the
  asynchronous waits, and the JSON form of the binding.
- `tests/` runs the library.
