# rpx

Deploy ML models to serverless GPUs and serve them behind one
OpenAI-compatible gateway.

- `src/` is the library, written and proved with Verus: engine and GPU
  choice, deployment plans, the lifecycle of fleet models, API keys with
  rate limits and budgets, spend tracking, request routing, the RunPod
  requests and how their answers are read, and the command line's
  decisions. Public `law_*` proof functions state properties that span
  several operations (a deploy followed by an eviction restores the fleet,
  a full bucket admits exactly its rate in a burst, and so on).
- `tests/` runs the library on concrete values.
- `app/` is the `rpx` program: argument parsing, files, HTTP (the gateway,
  the proxy, the RunPod and HuggingFace APIs) and the background loops,
  each handing plain values to the library and acting on what it decides.

Amounts of money are integers of picodollars, VRAM sizes thousandths of
a GB; the program converts them to dollars and GB for display.
