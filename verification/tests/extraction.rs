use grink::pattern::slices;
use grink::{UrlPattern, URL_PATTERN};

fn pattern() -> UrlPattern {
    UrlPattern::compile().expect("pattern should be valid")
}

#[test]
fn find_urls_fn_correctly_extracts_valid_urls() {
    let cases: Vec<(&str, Vec<&str>)> = vec![
        (
            "—Jerry Weinberg, [“Secrets of Consulting”](https://amzn.to/3uzcGE0)",
            vec!["https://amzn.to/3uzcGE0"],
        ),
        (
            "([Listing hello/3](https://github.com/bitfield/tpg-tools2/blob/main/hello/3/cmd/hello/main.go))",
            vec!["https://github.com/bitfield/tpg-tools2/blob/main/hello/3/cmd/hello/main.go"],
        ),
        (
            "* [https://github.com/bitfield/gotestdox](https://github.com/bitfield/gotestdox)",
            vec![
                "https://github.com/bitfield/gotestdox",
                "https://github.com/bitfield/gotestdox",
            ],
        ),
        (
            "The standard library function [`slices.Equal`](https://pkg.go.dev/golang.org/x/exp/slices#Equal) can do this comparison for us, but there's an even better solution. There's a package called [`go-cmp`](https://github.com/google/go-cmp) that is really clever at comparing all kinds of Go data structures, and it's especially useful for tests.",
            vec![
                "https://pkg.go.dev/golang.org/x/exp/slices#Equal",
                "https://github.com/google/go-cmp",
            ],
        ),
        (
            " —[“Saturday Night Live”](https://www.youtube.com/watch?v=GmqeZl8OI2M)",
            vec!["https://www.youtube.com/watch?v=GmqeZl8OI2M"],
        ),
        (
            "> —Andreas Klinger, [“Managing People”](https://klinger.io/posts/managing-people-%F0%9F%A4%AF)",
            vec!["https://klinger.io/posts/managing-people-%F0%9F%A4%AF"],
        ),
        (
            "Test link: [local test server](http://127.0.0.1:63151/)",
            vec!["http://127.0.0.1:63151/"],
        ),
        (
            "With all due respect to Descartes, he had it backwards. The fact that “I” am thinking indicates only that *there are thoughts*. The “I” who is supposedly in charge of them is a psychologically convenient fiction, no more. Or, as the poet Emily Dickinson put it, [“I'm nobody! Who are you?”](https://en.wikipedia.org/wiki/I%27m_Nobody!_Who_are_you%3F)",
            vec!["https://en.wikipedia.org/wiki/I%27m_Nobody!_Who_are_you%3F"],
        ),
        (
            "—Stephen Hough, [“Problems Playing the Piano?”](https://web.archive.org/web/20210210210510/http://www.stephenhough.com/writings/selective/problems-playing-piano.php)",
            vec![
                "https://web.archive.org/web/20210210210510/http://www.stephenhough.com/writings/selective/problems-playing-piano.php",
            ],
        ),
        (
            "photo by [Fab5669](https://commons.wikimedia.org/wiki/File:Blois_-_ch%C3%A2teau_royal,_aile_Fran%C3%A7ois_Ier,_int%C3%A9rieur_%2861%29.jpg), licensed under [Creative Commons](https://creativecommons.org/licenses/by-sa/4.0/deed.en)",
            vec![
                "https://commons.wikimedia.org/wiki/File:Blois_-_ch%C3%A2teau_royal,_aile_Fran%C3%A7ois_Ier,_int%C3%A9rieur_%2861%29.jpg",
                "https://creativecommons.org/licenses/by-sa/4.0/deed.en",
            ],
        ),
    ];
    let pattern = pattern();
    for (input, want) in cases {
        let got = pattern.find_urls(input);
        assert_eq!(want, got, "{}", input);
    }
}

#[test]
fn pattern_compiles() {
    assert!(UrlPattern::compile().is_ok());
}

#[test]
fn pattern_text_is_the_url_pattern() {
    assert_eq!(
        URL_PATTERN,
        "https?:\\/\\/[\\w\\d.:]+\\/?[\\w\\d./?=#%:!\\-,]+"
    );
}

#[test]
fn empty_text_has_no_urls() {
    assert!(pattern().find_urls("").is_empty());
}

#[test]
fn text_without_urls_has_no_urls() {
    let pattern = pattern();
    assert!(pattern.find_urls("no links here, only words").is_empty());
    assert!(pattern.find_urls("ftp://example.com/file").is_empty());
    assert!(pattern.find_urls("http:/example.com").is_empty());
    assert!(pattern.find_urls("https://").is_empty());
}

#[test]
fn markdown_link_keeps_comma_and_drops_bracket() {
    let got = pattern().find_urls("[label](https://example.com/a,b)");
    assert_eq!(got, vec!["https://example.com/a,b"]);
}

#[test]
fn url_as_label_and_target_is_found_twice() {
    let got = pattern().find_urls("[https://x.test/y](https://x.test/y)");
    assert_eq!(got, vec!["https://x.test/y", "https://x.test/y"]);
}

#[test]
fn percent_encoding_and_punctuation_stay_in_the_url() {
    let got = pattern()
        .find_urls("[“title”](https://en.wikipedia.org/wiki/I%27m_Nobody!_Who_are_you%3F)");
    assert_eq!(
        got,
        vec!["https://en.wikipedia.org/wiki/I%27m_Nobody!_Who_are_you%3F"]
    );
}

#[test]
fn urls_stop_at_whitespace_and_closing_brackets() {
    let pattern = pattern();
    assert_eq!(
        pattern.find_urls("see http://a.example/x and https://b.example/y] done"),
        vec!["http://a.example/x", "https://b.example/y"]
    );
    assert_eq!(
        pattern.find_urls("(http://a.example/one)\thttp://a.example/two\n"),
        vec!["http://a.example/one", "http://a.example/two"]
    );
}

#[test]
fn urls_come_in_order_of_appearance() {
    let got = pattern().find_urls("https://c.example/3 https://a.example/1 https://b.example/2");
    assert_eq!(
        got,
        vec![
            "https://c.example/3",
            "https://a.example/1",
            "https://b.example/2"
        ]
    );
}

#[test]
fn extraction_is_repeatable() {
    let pattern = pattern();
    let text = "a [b](https://example.com/b) c http://example.org/c?d=e#f";
    let first = pattern.find_urls(text);
    let second = pattern.find_urls(text);
    assert_eq!(first, second);
    assert_eq!(
        first,
        vec!["https://example.com/b", "http://example.org/c?d=e#f"]
    );
}

#[test]
fn found_urls_differ_from_the_text_searched() {
    let text = "go to https://example.com/page now";
    let got = pattern().find_urls(text);
    assert_eq!(got.len(), 1);
    assert_ne!(got[0], text);
    assert_eq!(got[0], "https://example.com/page");
}

#[test]
fn slices_cut_at_byte_offsets() {
    let text = "héllo wörld";
    let spans = vec![(0, 1), (1, 3), (7, 13), (13, 13), (0, 13)];
    assert_eq!(
        slices(text, &spans),
        vec!["h", "é", "wörld", "", "héllo wörld"]
    );
}

#[test]
fn slices_of_no_spans_are_none() {
    let spans: Vec<(usize, usize)> = Vec::new();
    assert!(slices("some text", &spans).is_empty());
}

#[test]
fn spans_are_byte_offsets_of_the_urls() {
    let pattern = pattern();
    assert_eq!(pattern.find_spans("a http://x.test/y b"), vec![(2, 17)]);
    assert_eq!(pattern.find_spans("http://x.test/y"), vec![(0, 15)]);
    assert_eq!(pattern.find_spans("—“é” http://x.test/y"), vec![(12, 27)]);
    assert!(pattern.find_spans("nothing").is_empty());
}

#[test]
fn spans_fit_the_text_and_do_not_overlap() {
    let text = "“a” [https://x.test/y](https://x.test/y), http://ü.test/z — http://q.test/ä!";
    let spans = pattern().find_spans(text);
    assert_eq!(spans.len(), 4);
    let mut last_end = 0;
    for (start, end) in &spans {
        assert!(last_end <= *start);
        assert!(start <= end);
        assert!(*end <= text.len());
        assert!(text.is_char_boundary(*start));
        assert!(text.is_char_boundary(*end));
        last_end = *end;
    }
}

#[test]
fn urls_are_the_slices_at_the_spans() {
    let pattern = pattern();
    let text = "see [docs](https://example.com/a,b) — or http://example.org/ü?q=1#top.";
    let spans = pattern.find_spans(text);
    assert_eq!(slices(text, &spans), pattern.find_urls(text));
    assert_eq!(
        pattern.find_urls(text),
        vec!["https://example.com/a,b", "http://example.org/ü?q=1#top."]
    );
}
