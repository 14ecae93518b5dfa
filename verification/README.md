# rubin_love_tui

A terminal dashboard of an observatory's script queue, fed by the LOVE
manager's websocket subscription stream.

- `src/` is the verified library: the message types and their queries
  (`queue_data::love_payload`), the dashboard's state and every decision it
  takes on keys and messages, with what each panel shows (`app`), the
  placement of the panels (`layout`), the string operations they rest on
  (`text`), and properties that hold across operations (`laws`).
- `app/` is the program around it: the websocket client, the JSON reading,
  the terminal event loop and the drawing with ratatui. Run it with the
  argument `get-queue-data` to print the received streams instead of
  showing the dashboard.
