use selenology::corpus::{Corpus, CorpusError, RepositoryDescriptor};
use selenology::diff::{diff, DiffSegment};
use selenology::escape::{break_lines, escape_html, process_text};
use selenology::pipeline::{
    action_for, check_outcome, encoding_error, plan, tool_args, Action, ErrorKind, Outcome,
    Program, Step,
};
use selenology::render::render_diff;
use selenology::report::Report;

const DELETION: &str = "<span style='background-color: #67060c; color: #ffdcd7'>";
const INSERTION: &str = "<span style='background-color: #033a16; color: #aff5b4'>";

fn entry(id: &str, pregenerate: bool) -> RepositoryDescriptor {
    RepositoryDescriptor {
        id: id.to_string(),
        git_ref: "main".to_string(),
        location: format!("https://example.com/{}.git", id),
        invocation_args: vec!["src".to_string(), "--display-style=quiet".to_string()],
        needs_pregeneration: pregenerate,
    }
}

fn old_text(segs: &[DiffSegment]) -> String {
    let mut s = String::new();
    for seg in segs {
        match seg {
            DiffSegment::Equal(t) | DiffSegment::Deleted(t) => s.push_str(t),
            DiffSegment::Inserted(_) => {}
        }
    }
    s
}

fn new_text(segs: &[DiffSegment]) -> String {
    let mut s = String::new();
    for seg in segs {
        match seg {
            DiffSegment::Equal(t) | DiffSegment::Inserted(t) => s.push_str(t),
            DiffSegment::Deleted(_) => {}
        }
    }
    s
}

#[test]
fn escapes_the_minimal_set() {
    assert_eq!(escape_html("<em>\"a\" & 'b'</em>"), "&lt;em&gt;&quot;a&quot; &amp; &#x27;b&#x27;&lt;/em&gt;");
    assert_eq!(escape_html("plain"), "plain");
    assert_eq!(escape_html(""), "");
}

#[test]
fn newlines_become_line_breaks() {
    assert_eq!(break_lines("a\nb\n"), "a<br />b<br />");
    assert_eq!(break_lines(""), "");
    assert_eq!(process_text("x < y\nz"), "x &lt; y<br />z");
}

#[test]
fn ampersand_is_escaped_once() {
    assert_eq!(process_text("&"), "&amp;");
    assert_eq!(process_text("a && b"), "a &amp;&amp; b");
    assert_eq!(process_text("&amp;"), "&amp;amp;");
}

#[test]
fn equal_texts_give_only_equal_segments() {
    let segs = diff("no issues found\n", "no issues found\n");
    assert!(segs.iter().all(|s| matches!(s, DiffSegment::Equal(_))));
    assert_eq!(old_text(&segs), "no issues found\n");
    let rendered = render_diff("repo", &segs);
    assert!(!rendered.contains("<span"));
    assert_eq!(rendered, "<div><h2>repo</h2>no issues found<br /></div><hr />");
}

#[test]
fn empty_texts_give_no_segments_to_style() {
    let segs = diff("", "");
    assert!(segs.iter().all(|s| matches!(s, DiffSegment::Equal(_))));
    assert_eq!(render_diff("e", &segs), "<div><h2>e</h2></div><hr />");
}

#[test]
fn segments_rebuild_both_texts() {
    let cases = [
        ("line1\nline2\n", "line1\nline3\n"),
        ("", "added\n"),
        ("removed\n", ""),
        ("a & b < c", "a && b > c"),
        ("warning[unused]: x\n", "error[shadowing]: y\nwarning[unused]: x\n"),
    ];
    for (old, new) in cases {
        let segs = diff(old, new);
        assert_eq!(old_text(&segs), old);
        assert_eq!(new_text(&segs), new);
    }
}

#[test]
fn changed_line_renders_one_deletion_and_one_insertion() {
    let segs = diff("line1\nline2\n", "line1\nline3\n");
    assert_eq!(old_text(&segs), "line1\nline2\n");
    assert_eq!(new_text(&segs), "line1\nline3\n");
    let deleted: Vec<&String> = segs.iter().filter_map(|s| match s {
        DiffSegment::Deleted(t) => Some(t),
        _ => None,
    }).collect();
    let inserted: Vec<&String> = segs.iter().filter_map(|s| match s {
        DiffSegment::Inserted(t) => Some(t),
        _ => None,
    }).collect();
    assert_eq!(deleted.len(), 1);
    assert_eq!(inserted.len(), 1);
    assert!(deleted[0].contains('2'));
    assert!(inserted[0].contains('3'));
    let rendered = render_diff("repo", &segs);
    assert_eq!(rendered.matches(DELETION).count(), 1);
    assert_eq!(rendered.matches(INSERTION).count(), 1);
    assert!(rendered.starts_with("<div><h2>repo</h2>line1<br />"));
    assert!(rendered.ends_with("</div><hr />"));
}

#[test]
fn render_styles_each_segment() {
    let segs = vec![
        DiffSegment::Equal("x\n".to_string()),
        DiffSegment::Deleted("y".to_string()),
        DiffSegment::Inserted("<z>".to_string()),
    ];
    let expected = format!(
        "<div><h2>a&lt;b</h2>x<br />{}y</span>{}&lt;z&gt;</span></div><hr />",
        DELETION, INSERTION
    );
    assert_eq!(render_diff("a<b", &segs), expected);
}

#[test]
fn corpus_is_ordered_by_id() {
    let c = Corpus::load(vec![entry("roact", false), entry("luau", true), entry("cmdr", false)]).unwrap();
    let ids: Vec<&str> = c.entries.iter().map(|e| e.id.as_str()).collect();
    assert_eq!(ids, vec!["cmdr", "luau", "roact"]);
}

#[test]
fn corpus_load_is_deterministic() {
    let make = || vec![entry("b", false), entry("a-b", false), entry("a", true), entry("B", false)];
    let c1 = Corpus::load(make()).unwrap();
    let c2 = Corpus::load(make()).unwrap();
    let ids1: Vec<String> = c1.entries.iter().map(|e| e.id.clone()).collect();
    let ids2: Vec<String> = c2.entries.iter().map(|e| e.id.clone()).collect();
    assert_eq!(ids1, ids2);
    assert_eq!(ids1, vec!["B", "a", "a-b", "b"]);
    let reversed = Corpus::load(make().into_iter().rev().collect()).unwrap();
    let ids3: Vec<String> = reversed.entries.iter().map(|e| e.id.clone()).collect();
    assert_eq!(ids1, ids3);
}

#[test]
fn corpus_rejects_duplicate_ids() {
    match Corpus::load(vec![entry("a", false), entry("b", false), entry("a", true)]) {
        Err(CorpusError::DuplicateId(id)) => assert_eq!(id, "a"),
        Ok(_) => panic!("duplicate accepted"),
    }
    assert!(Corpus::load(vec![]).unwrap().entries.is_empty());
}

#[test]
fn plan_without_pregeneration() {
    assert_eq!(
        plan(&entry("a", false)),
        vec![
            Step::CreateDirectory,
            Step::InitRepository,
            Step::AddRemote,
            Step::FetchRef,
            Step::CheckoutFetched,
            Step::RunOld,
            Step::RunNew,
        ]
    );
}

#[test]
fn pregeneration_is_redone_between_the_runs() {
    let p = plan(&entry("a", true));
    let at = |s: Step| p.iter().position(|x| *x == s).unwrap();
    assert!(at(Step::Pregenerate) < at(Step::RunOld));
    assert!(at(Step::RunOld) < at(Step::DeleteArtifact));
    assert!(at(Step::DeleteArtifact) < at(Step::Regenerate));
    assert!(at(Step::Regenerate) < at(Step::RunNew));
    match action_for(Step::Regenerate, &entry("a", true)) {
        Action::Run(Program::OldTool, args) => assert_eq!(args, vec!["generate-roblox-std"]),
        _ => panic!("regeneration does not run the old tool"),
    }
    match action_for(Step::DeleteArtifact, &entry("a", true)) {
        Action::DeleteFile(f) => assert_eq!(f, "roblox.toml"),
        _ => panic!("wrong action"),
    }
}

#[test]
fn actions_carry_the_entry() {
    let e = entry("repo", false);
    match action_for(Step::FetchRef, &e) {
        Action::Run(Program::Git, args) => assert_eq!(args, vec!["fetch", "--depth", "1", "origin", "main"]),
        _ => panic!("wrong action"),
    }
    match action_for(Step::AddRemote, &e) {
        Action::Run(Program::Git, args) => {
            assert_eq!(args, vec!["remote", "add", "origin", "https://example.com/repo.git"])
        }
        _ => panic!("wrong action"),
    }
    match action_for(Step::RunNew, &e) {
        Action::Run(Program::NewTool, args) => {
            assert_eq!(args, vec!["src", "--display-style=quiet", "--num-threads", "1"])
        }
        _ => panic!("wrong action"),
    }
    assert!(matches!(action_for(Step::CreateDirectory, &e), Action::CreateDirectory));
    assert_eq!(tool_args(&e), vec!["src", "--display-style=quiet", "--num-threads", "1"]);
}

#[test]
fn outcomes_that_end_the_run() {
    let e = check_outcome("repo", Step::FetchRef, Outcome::Exited(false)).unwrap_err();
    assert_eq!(e.kind, ErrorKind::Fetch);
    assert_eq!(e.message(), "repo: fetching origin");
    assert!(check_outcome("repo", Step::RunOld, Outcome::Exited(false)).is_ok());
    assert!(check_outcome("repo", Step::RunNew, Outcome::Exited(true)).is_ok());
    let e = check_outcome("repo", Step::RunNew, Outcome::Failed).unwrap_err();
    assert_eq!(e.kind, ErrorKind::ProcessSpawn);
    assert_eq!(e.message(), "repo: running new selene");
    let e = check_outcome("repo", Step::CreateDirectory, Outcome::Failed).unwrap_err();
    assert_eq!(e.kind, ErrorKind::DirectoryCreation);
    let e = check_outcome("repo", Step::DeleteArtifact, Outcome::Failed).unwrap_err();
    assert_eq!(e.kind, ErrorKind::FileRemoval);
    let e = encoding_error("repo", Step::RunOld);
    assert_eq!(e.kind, ErrorKind::Encoding);
    assert_eq!(e.message(), "repo: parsing old selene's output as utf-8");
}

#[test]
fn fetch_failure_stops_the_run() {
    let mut report = Report::new();
    report.record(Ok("<div>first</div>".to_string()));
    let failure = check_outcome("broken", Step::FetchRef, Outcome::Exited(false)).unwrap_err();
    report.record(Err(failure));
    assert!(report.is_halted());
    report.record(Ok("<div>later</div>".to_string()));
    assert_eq!(report.fragments, vec!["<div>first</div>".to_string()]);
    let e = report.failure.as_ref().unwrap();
    assert_eq!(e.kind, ErrorKind::Fetch);
    assert!(e.message().contains("broken"));
}

#[test]
fn document_wraps_the_fragments() {
    let mut report = Report::new();
    assert!(!report.is_halted());
    report.record(Ok("A".to_string()));
    report.record(Ok("B".to_string()));
    assert_eq!(
        report.document(),
        "<!DOCTYPE html><html><head><meta charset='utf-8'><style>body { font-family: Consolas, monospace; }</style></head><body>AB</body></html>"
    );
}

#[test]
fn identical_outputs_make_one_plain_block() {
    let c = Corpus::load(vec![entry("only", false)]).unwrap();
    let mut report = Report::new();
    for e in &c.entries {
        let segs = diff("no issues found\n", "no issues found\n");
        report.record(Ok(render_diff(&e.id, &segs)));
    }
    let doc = report.document();
    assert_eq!(doc.matches("<h2>").count(), 1);
    assert!(!doc.contains("<span"));
}
