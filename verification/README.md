# typst-docx

Lowers typeset content to a Word document: a typed document model, the rules that
turn content into it, and the encoding of the model as the parts of a package.

The library under `src/` is verified with Verus. Every function states what it
returns or changes; what holds of several functions together stands beside them as
public proof functions.

- `content`, `dom`, `props`, `length`, `text`, `xml`: the content that comes in, the
  document model, and what the contracts say of them.
- `convert`, `ctx`: how content becomes blocks, paragraphs and runs.
- `document`: sections, page geometry, headers and footers, styles, fonts, review.
- `fallback`: content that is drawn as an image, and the text recovered from it.
- `heading_numbering`, `live_numbers`, `numerals`: frozen heading numbers that become
  live, and what they show.
- `introspect`: queries that are answered from the exported document.
- `bibliography`, `encode`, `rels`: sources and the parts of the package.

Lengths are integers, in millionths of a point.

`app/` is ordinary Rust: it walks the content of a layout engine, which it knows
through the trait `Engine`, asks the library what becomes of each element, and
writes the package.
