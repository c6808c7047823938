# rust_learn

Small Rust programs whose logic is verified with Verus.

- `src/` is the verified library: the quick sort (`self_sort::quick`), a
  growable vector (`self_vec::svec`), a singly linked list
  (`link_list::single`), the password rules and the weather station
  (`practice`), configuration values and their conversions
  (`source::config`), the study plan (`xy::plan`), users, errors and
  responses of the web service (`model`, `service`, `utils`), the language
  demonstrations that compute something (`sj`), and the text helpers they
  share (`text`).
- `app/` is the program around it: console dialogues, file and database
  access, the HTTP routes, the workbook export, and what needs floating
  point, `Debug` of hash maps or closures that mutate what they capture.
- `tests/` runs the library on concrete values.
