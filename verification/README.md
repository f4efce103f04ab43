# undetected_chromedriver

A browser driver that is hard to tell from a person. `src/` is its verified core: it decides what
is asked of the browser, in what order, and what the answers mean. `app/` holds the session, the
files, the process and the network, and performs what the core decides.

- `plan`: steps to perform on a session, and the run that performs them
- `chrome`: the operations on a session, as plans and as readings of replies
- `operation`: operations of more than one stage, and what each stage asks for
- `commands`, `scripts`, `stealth`: what the plans send
- `waiting`: polling until a deadline, and a limited number of attempts
- `driver`, `capabilities`, `profile`: launching the browser
- `download`, `archive`, `patch`: getting and patching the driver's binary
- `utils`, `proxy`, `config`, `error`: preference trees, proxy addresses, configuration, errors
- `json`, `encoding`, `text`, `chance`: what is taken on trust from `serde_json`, `base64`, the
  standard library and `rand`
