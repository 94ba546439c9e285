# soshalthing_yew

The logic of a browser feed reader that gathers Twitter, Pixiv and YouTube
articles into timelines, as a library whose functions carry contracts that
Verus proves.

- `src/`: the library. Endpoints and their registry (`endpoints`,
  `endpoint_agent`, `choose_endpoints`, `filters`, the services' endpoint modules), the
  services' articles and stores (`twitter`, `pixiv`, `youtube`,
  `dummy_service`), timelines and their masonry layout (`timeline`,
  `containers`), settings, storage of read and hidden marks (`storages`),
  media loading, notifications, dialogs, and text and number handling
  (`text`, `decimal`).
- `tests/`: tests of the library on concrete values.
- `app/`: the browser side: page and storage access, network answers turned
  into the library's values, and the agents that connect components.
