use onevcs::change::{require, session_change, ChangeDescription};
use onevcs::error::Error;
use onevcs::host::{ChangeId, ChangeRequest, Sha};

fn change(id: &str) -> ChangeRequest {
    ChangeRequest {
        id: ChangeId(id.to_owned()),
        url: format!("https://github.com/o/n/pull/{id}"),
        head_sha: Sha("abc".to_owned()),
        base: "main".to_owned(),
    }
}

#[test]
fn the_first_change_request_found_is_the_sessions() {
    let found = require("t1", "topic", "main", vec![change("7"), change("8")]).unwrap();
    assert_eq!(found, change("7"));
}

#[test]
fn a_session_with_no_change_request_is_refused_naming_the_publication() {
    match require("t1", "topic", "main", Vec::new()) {
        Err(Error::Invalid { reason }) => assert_eq!(
            reason,
            "session t1 has no open change request from \"topic\" into \"main\" on the host, so \
             there is nothing to act on. Nothing here opens one: publish the session first — \
             `onevcs publish t1 --draft` opens it as a draft the session holds while its work is \
             still being made"
        ),
        other => panic!("expected a refusal, got {other:?}"),
    }
}

#[test]
fn a_session_change_is_read_back_as_the_host_holds_it() {
    let read = session_change(&change("7"), true, "Title".to_owned(), "Body".to_owned());
    assert_eq!(read.url, "https://github.com/o/n/pull/7");
    assert_eq!(read.id, ChangeId("7".to_owned()));
    assert_eq!(read.base, "main");
    assert!(read.draft);
    assert_eq!((read.title.as_str(), read.body.as_str()), ("Title", "Body"));
    let description = ChangeDescription { title: None, body: "b".to_owned() };
    assert_eq!(description.clone(), description);
}
