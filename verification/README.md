# website-screenshot

Website screenshots as a service: an HTTP server that opens a requested page
in a headless Chrome (through chromedriver), captures it, stores the image and
serves it back under a short slug.

## Layout

- `src/` is the verified library. Each module states its behaviour in
  contracts that Verus proves:
  - `error`: the errors the service answers with, their statuses and messages.
  - `middlewares`: the authentication decision for each request.
  - `routes`: the routes' answers and the screenshot protocol, a state
    machine from the outcome of each outside action to the next action.
  - `util`: the URL check and the NSFW block list (parsing and lookup).
  - `pattern`, `text`: regex searching and replacing, literal replacing,
    splitting.
  - `json`: the JSON texts the service writes.
  - `cdp`, `evasions`, `browser`: the Chromium commands, the scripts that
    hide the headless browser, and Chrome's start-up flags.
  - `providers`: storage keys, paths and upload forms of the back ends.
- `app/` is the server itself: actix-web routes, the browser session, Redis
  and the storage back ends, and the loop that carries out the protocol's
  actions.
- `tests/` runs the library on concrete values.

## Configuration

The service reads `PORT`, `REDIS_URL`, `FULLSCREEN_SCREENSHOT`, `CHECK_IF_NSFW`,
`DARK_MODE`, `FORCE_NSFW_CHECK`, `FORCE_DARK_MODE`, `GOOGLE_CHROME_PATH`,
`CHROMEDRIVER_ADDRESS`, `CHROME_FLAGS` and `AUTH_TOKEN`. The storage back end
is chosen at run time by `STORAGE_PROVIDER` (`fs`, the default, `cloudinary`
or `s3`, each with its own variables). The OpenAPI template (`openapi.yml`)
and the evasion scripts (`evasions/*.js`) are read from the working directory.
