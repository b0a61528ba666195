use tiffer::remote::deck_request;
use tiffer::source::Link;
use tiffer::source::Source;

#[test]
fn existing_file_is_a_file_source() {
    match Source::resolve("decks/hydras.txt", true) {
        Ok(Source::File(path)) => assert_eq!(path, "decks/hydras.txt"),
        other => panic!("unexpected source {:?}", other),
    }
}

#[test]
fn file_goes_before_address() {
    match Source::resolve("https://moxfield.com/decks/abc", true) {
        Ok(Source::File(path)) => assert_eq!(path, "https://moxfield.com/decks/abc"),
        other => panic!("unexpected source {:?}", other),
    }
}

#[test]
fn address_is_taken_apart() {
    match Source::resolve("https://moxfield.com/decks/abc123?x=1#top", false) {
        Ok(Source::Link(link)) => {
            assert_eq!(link.address, "https://moxfield.com/decks/abc123?x=1#top");
            assert_eq!(link.host.as_deref(), Some("moxfield.com"));
            assert_eq!(link.path, "/decks/abc123");
        }
        other => panic!("unexpected source {:?}", other),
    }
}

#[test]
fn address_is_brought_to_its_normal_form() {
    match Source::resolve("HTTPS://MoxField.COM", false) {
        Ok(Source::Link(link)) => {
            assert_eq!(link.address, "https://moxfield.com/");
            assert_eq!(link.host.as_deref(), Some("moxfield.com"));
            assert_eq!(link.path, "/");
        }
        other => panic!("unexpected source {:?}", other),
    }
}

#[test]
fn address_without_host_has_none() {
    match Source::resolve("mailto:someone@example.com", false) {
        Ok(Source::Link(link)) => {
            assert_eq!(link.host, None);
            assert_eq!(link.path, "someone@example.com");
        }
        other => panic!("unexpected source {:?}", other),
    }
}

#[test]
fn neither_file_nor_address_is_refused() {
    match Source::resolve("no such thing", false) {
        Err(message) => assert_eq!(message, "Invalid path or URL: no such thing"),
        other => panic!("unexpected source {:?}", other),
    }
    match Source::resolve("", false) {
        Err(message) => assert_eq!(message, "Invalid path or URL: "),
        other => panic!("unexpected source {:?}", other),
    }
}

#[test]
fn from_parts_takes_the_parsed_link_as_it_is() {
    let link = Link {
        address: "https://moxfield.com/decks/z".to_string(),
        host: Some("moxfield.com".to_string()),
        path: "/decks/z".to_string(),
    };
    match Source::from_parts("anything", false, Some(link)) {
        Ok(Source::Link(found)) => assert_eq!(found.path, "/decks/z"),
        other => panic!("unexpected source {:?}", other),
    }
    match Source::from_parts("anything", false, None) {
        Err(message) => assert_eq!(message, "Invalid path or URL: anything"),
        other => panic!("unexpected source {:?}", other),
    }
    assert!(matches!(Source::from_parts("f", true, None), Ok(Source::File(_))));
}

#[test]
fn resolved_link_leads_to_the_deck_request() {
    match Source::resolve("https://moxfield.com/decks/Qx7-abc_9", false) {
        Ok(Source::Link(link)) => assert_eq!(
            deck_request(&link),
            Ok("https://api2.moxfield.com/v2/decks/all/Qx7-abc_9".to_string())
        ),
        other => panic!("unexpected source {:?}", other),
    }
}

#[test]
fn source_clone_keeps_what_it_holds() {
    let source = Source::resolve("https://moxfield.com/decks/abc", false).unwrap().clone();
    match source {
        Source::Link(link) => assert_eq!(link.path, "/decks/abc"),
        other => panic!("unexpected source {:?}", other),
    }
    match Source::File("a.txt".to_string()).clone() {
        Source::File(path) => assert_eq!(path, "a.txt"),
        other => panic!("unexpected source {:?}", other),
    }
}
