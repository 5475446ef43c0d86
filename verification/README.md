# text_system

Shaping, metric and wrapping caches for text rendering, verified with Verus.

A `TextSystem` wraps a platform text system. It resolves fonts with a stack of
fallbacks, caches font ids, font metrics and raster bounds, pools font-run buffers
and line wrappers, and carries reports of missing glyphs from layout to the
application.

* `src/text_system.rs`: the text system.
* `src/surroundings.rs`: the platform, the generation counter and the reporter, which
  other threads share, with a record of what was done to them.
* `src/questions.rs`: questions to the platform whose answers are not kept.
* `src/answers.rs`: how its caches relate to what the platform was asked and answered,
  and the laws of caching, fallback and pooling.
* `src/missing_glyphs.rs`: reporting and receiving missing glyphs, and what the receiver
  remembers; `src/missing_glyph_laws.rs`: what holds of every batch of reports.
* `src/report_queue.rs`: the two ends of the report queue, with a record of what was done
  at each.
* `src/fonts.rs`, `src/caches.rs`, `src/inline_lists.rs`: the collections;
  `src/wrapper_maker.rs`: making line wrappers.
* `src/sequences.rs`: dropping repetitions, joining and sorting names.
* `src/queue.rs`: what is used of `async_channel`.
* `src/platform.rs`: the trait that a platform implements.
* `src/types.rs`: plain values.

Lengths in single precision are bit patterns in the library. `app/` evaluates them,
shares the text system between threads and awaits reports.
