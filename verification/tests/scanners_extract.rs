//! Link extraction from markdown and plain text.

use linkcheck::scanners::{markdown, plaintext};
use linkcheck::Span;

#[test]
fn detect_common_links_in_markdown() {
    let src = r#"
# Some Heading

[this](https://example.com) is a link [to nowhere][nowhere]. But
[this](../README.md) points somewhere on disk.

![Look, an image!](https://imgur.com/gallery/f28OkrB)

[nowhere]: https://dev.null/

- [x] Comments
- [ ] Issues

```sql
ALTER FOREIGN TABLE [ IF EXISTS ] [ ONLY ] name [ * ]
    action [, ... ]
```

        "#;
    let should_be = vec![
        (String::from("https://example.com"), Span::new(17, 44)),
        (String::from("https://dev.null/"), Span::new(55, 76)),
        (String::from("../README.md"), Span::new(82, 102)),
        (
            String::from("https://imgur.com/gallery/f28OkrB"),
            Span::new(130, 183),
        ),
    ];

    let got = markdown(src);

    assert_eq!(got, should_be);
}

#[test]
fn detect_urls_in_some_text() {
    let src = "hello http://localhost/ world. this is file://some/text.";
    let should_be = vec![
        (String::from("http://localhost/"), Span::new(6, 23)),
        (String::from("file://some/text"), Span::new(39, 55)),
    ];

    let got = plaintext(src);

    assert_eq!(got, should_be);
}
