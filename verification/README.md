# wc

A small web server for editable pages. Each page is an HTML file under
`pages/` that carries its own data (title, navigation, subsections, href
references) as JSON; the page's script posts requests to save the data, make
a sub page, move a page or follow a link, and the server rewrites the files.

The library in `src/` is verified with Verus:

- `jvalue`: the JSON model (`Json`, viewed as `JVal`), with the json crate
  parsing and printing it.
- `text`, `pattern`, `url_util`: texts, regular expressions (regex crate)
  and URLs (url crate).
- `page`: pages and their files; the page data (`page_json`), reading it
  from a page and writing a page from it (`json_to_dom`, `dom_to_json`,
  through html5ever), revisions and backups, sub pages and moves.
- `wc_handler`: requests (httparse), routing, the replies, and following
  links through href references (`href_inspec`).
- `js_css`: the script and style files written at set-up.

`app/` is the program around it: the listener and its thread pool, reading
requests and page files, writing files, and running the steps the library
hands back (following a link through references, moving sub pages).

The tests under `tests/` run the library with the outside crates linked.
