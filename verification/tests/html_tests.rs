use slice_n_dice::html::to_plain_text;

#[test]
fn to_plain_text_removes_comment() {
    let html = r###"<!--a comment-->"###;
    let expected = r###""###;

    let result = to_plain_text(html).unwrap();

    assert_eq!(result, expected);
}

#[test]
fn to_plain_text_makes_html_plaintext() {
    let html = r###"
            <!-- Wow much comment -->
            <h1>Hello</h1>
            <p>Some stuff</p>
            More text
        "###;
    let expected = r###"Hello
Some stuff
More text"###;

    let result = to_plain_text(html).unwrap();

    assert_eq!(result, expected.trim());
}

#[test]
fn to_plain_text_strips_tags_and_script() {
    // Would fail if the rewriter handed the markup back unchanged.
    let result = to_plain_text("<p>a</p>").unwrap();
    assert_eq!(result, "a");

    let page = "<script>alert(1)</script><style>p{}</style><p>kept</p>";
    assert_eq!(to_plain_text(page).unwrap(), "kept");
}

#[test]
fn tidy_trims_every_line() {
    let text = "  first  \n\t second\t \n";
    assert_eq!(slice_n_dice::text::tidy_text(text), "first\nsecond");
    assert_eq!(slice_n_dice::text::tidy_text("   \n \t "), "");
    assert_eq!(slice_n_dice::text::tidy_text("a\n\nb"), "a\n\nb");
}
