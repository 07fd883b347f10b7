use facecam::nodes::{
    find_v4l2_device_for_usb, ChildEntry, IndexFile, NodeEntry, NodeSearch, SearchOutcome,
    SearchPhase, SearchReply, SearchRequest,
};

fn node(name: &str, index: IndexFile) -> NodeEntry {
    NodeEntry::Node { name: name.to_string(), index }
}

fn index(text: &str) -> IndexFile {
    IndexFile::Content(text.to_string())
}

fn dir(path: &str) -> ChildEntry {
    ChildEntry::Child { path: path.to_string(), is_dir: true }
}

fn file(path: &str) -> ChildEntry {
    ChildEntry::Child { path: path.to_string(), is_dir: false }
}

/// Answers the questions of a search and notes them.
fn drive(mut search: NodeSearch, answer: impl Fn(&SearchRequest) -> SearchReply) -> (SearchOutcome, Vec<String>) {
    let mut asked = Vec::new();
    loop {
        let request = search.request();
        match &request {
            SearchRequest::Nodes(path) => asked.push(format!("nodes {}", path)),
            SearchRequest::Capability(dev) => asked.push(format!("caps {}", dev)),
            SearchRequest::Children(path) => asked.push(format!("children {}", path)),
            SearchRequest::Nothing => break,
        }
        search = search.reply(answer(&request));
    }
    match search.phase {
        SearchPhase::Over(outcome) => (outcome, asked),
        _ => panic!("not over"),
    }
}

#[test]
fn the_search_walks_directories_in_order() {
    let (outcome, asked) = drive(find_v4l2_device_for_usb("/u".to_string()), |request| match request {
        SearchRequest::Nodes(path) if path == "/u/b/video4linux" => SearchReply::Nodes(vec![
            node("media0", IndexFile::Missing),
            node("video1", index("1\n")),
            node("video2", IndexFile::Unreadable),
            node("video3", index("0\n")),
            node("video4", IndexFile::Missing),
        ]),
        SearchRequest::Nodes(_) => SearchReply::NoDirectory,
        SearchRequest::Capability(dev) => SearchReply::Capability(dev == "/dev/video4"),
        SearchRequest::Children(path) if path == "/u" => {
            SearchReply::Children(vec![file("/u/f"), dir("/u/a"), dir("/u/b"), dir("/u/c")])
        }
        SearchRequest::Children(path) if path == "/u/a" => SearchReply::Children(vec![dir("/u/a/x")]),
        _ => SearchReply::Unreadable("no".to_string()),
    });
    assert!(matches!(outcome, SearchOutcome::Found(dev) if dev == "/dev/video4"));
    assert_eq!(
        asked,
        vec![
            "nodes /u/video4linux",
            "children /u",
            "nodes /u/a/video4linux",
            "children /u/a",
            "nodes /u/a/x/video4linux",
            "children /u/a/x",
            "nodes /u/b/video4linux",
            "caps /dev/video3",
            "caps /dev/video4",
        ]
    );
}

#[test]
fn a_search_without_nodes_finds_nothing() {
    let (outcome, asked) = drive(find_v4l2_device_for_usb("/u".to_string()), |request| match request {
        SearchRequest::Nodes(_) => SearchReply::Nodes(vec![node("video0", index("x"))]),
        _ => SearchReply::Children(vec![]),
    });
    assert!(matches!(outcome, SearchOutcome::NotFound));
    assert_eq!(asked.len(), 2);
}

#[test]
fn a_listing_that_breaks_off_fails_when_the_search_gets_there() {
    let (outcome, _) = drive(find_v4l2_device_for_usb("/u".to_string()), |request| match request {
        SearchRequest::Nodes(path) if path == "/u/a/video4linux" => {
            SearchReply::Nodes(vec![node("video0", index("0"))])
        }
        SearchRequest::Nodes(_) => SearchReply::NoDirectory,
        SearchRequest::Capability(_) => SearchReply::Capability(true),
        _ => SearchReply::Children(vec![dir("/u/a"), ChildEntry::Broken("later".to_string())]),
    });
    assert!(matches!(outcome, SearchOutcome::Found(dev) if dev == "/dev/video0"));
    let (outcome, _) = drive(find_v4l2_device_for_usb("/u".to_string()), |request| match request {
        SearchRequest::Nodes(_) => SearchReply::NoDirectory,
        _ => SearchReply::Children(vec![ChildEntry::Broken("broken".to_string()), dir("/u/a")]),
    });
    assert!(matches!(outcome, SearchOutcome::Failed(words) if words == "broken"));
    let (outcome, _) = drive(find_v4l2_device_for_usb("/u".to_string()), |_| {
        SearchReply::Unreadable("denied".to_string())
    });
    assert!(matches!(outcome, SearchOutcome::Failed(words) if words == "denied"));
    let (outcome, _) = drive(find_v4l2_device_for_usb("/u".to_string()), |_| {
        SearchReply::Nodes(vec![NodeEntry::Broken("cut".to_string())])
    });
    assert!(matches!(outcome, SearchOutcome::Failed(words) if words == "cut"));
}
