use notekeeper::note::markdown::Markdown;

#[test]
fn test_update_local_link() {
    assert_eq!(
        Markdown("+http://foo.bar".to_owned())
            .update_local_link("http://foo.bar", "foo/bar")
            .0,
        "http://foo.bar ([local copy](foo/bar))"
    );

    assert_eq!(
        Markdown("+http://foo.bar".to_owned())
            .update_local_link("http://bar.baz", "bar/baz")
            .0,
        "+http://foo.bar"
    );
}
