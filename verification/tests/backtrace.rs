use rootcause::handlers::{AttachmentHandlerKind, FormattingFunction};
use rootcause::hooks::builtin_hooks::backtrace::{
    Backtrace, BacktraceCollector, BacktraceEntry, BacktraceFilter, BacktraceHandler, Frame,
    FramePath, get_rootcause_matcher,
};
use rootcause::hooks::builtin_hooks::location::Location;
use rootcause::hooks::Hooks;
use rootcause::report::Report;

fn frame(sym: &str, krate: Option<&str>, path: &str, line: u32) -> Frame {
    Frame {
        sym_demangled: sym.to_string(),
        frame_path: Some(FramePath {
            raw_path: path.to_string(),
            crate_name: krate.map(|c| c.to_string()),
            split_path: None,
        }),
        lineno: Some(line),
    }
}

fn sample_frames() -> Vec<Frame> {
    vec![
        frame("backtrace::capture", Some("backtrace"), "/r/backtrace/lib.rs", 1),
        frame("rootcause::report::new", Some("rootcause"), "/r/rootcause/report.rs", 2),
        frame("app::load::read", Some("app"), "/src/app/load.rs", 10),
        frame("tokio::rt::poll", Some("tokio"), "/r/tokio/rt.rs", 3),
        frame("tokio::rt::run", Some("tokio"), "/r/tokio/rt.rs", 4),
        frame("app::main", Some("app"), "/src/app/main.rs", 20),
        frame("std::rt::lang_start", Some("std"), "/r/std/rt.rs", 5),
    ]
}

#[test]
fn default_filter_values() {
    let f = BacktraceFilter::default();
    assert_eq!(f.skipped_initial_crates, &["backtrace", "rootcause", "core", "std", "alloc"]);
    assert_eq!(f.skipped_middle_crates, &["tokio"]);
    assert_eq!(f.skipped_final_crates, &["std", "core", "alloc", "tokio"]);
    assert_eq!(f.max_entry_count, 20);
}

#[test]
fn filter_skips_initial_middle_and_final_frames() {
    let bt = Backtrace::from_frames(&sample_frames(), &BacktraceFilter::default()).unwrap();
    assert_eq!(bt.entries.len(), 3);
    assert!(matches!(&bt.entries[0], BacktraceEntry::Frame(f) if f.sym_demangled == "app::load::read"));
    assert!(matches!(&bt.entries[1], BacktraceEntry::OmittedFrames { count: 2, skipped_crate: "tokio" }));
    assert!(matches!(&bt.entries[2], BacktraceEntry::Frame(f) if f.sym_demangled == "app::main"));
    // 2 initial frames, 2 tokio frames and 1 final std frame are left out.
    assert_eq!(bt.total_omitted_frames, 5);
}

#[test]
fn every_frame_is_shown_or_counted() {
    let frames = sample_frames();
    let bt = Backtrace::from_frames(&frames, &BacktraceFilter::default()).unwrap();
    let shown = bt.entries.iter().filter(|e| matches!(e, BacktraceEntry::Frame(_))).count();
    assert_eq!(shown + bt.total_omitted_frames, frames.len());
}

#[test]
fn max_entry_count_caps_entries() {
    let filter = BacktraceFilter {
        skipped_initial_crates: &[],
        skipped_middle_crates: &[],
        skipped_final_crates: &[],
        max_entry_count: 2,
    };
    let bt = Backtrace::from_frames(&sample_frames(), &filter).unwrap();
    assert_eq!(bt.entries.len(), 2);
    assert_eq!(bt.total_omitted_frames, 5);
}

#[test]
fn max_entry_count_holds_with_an_open_run() {
    let filter = BacktraceFilter {
        skipped_initial_crates: &[],
        skipped_middle_crates: &["tokio"],
        skipped_final_crates: &[],
        max_entry_count: 1,
    };
    let frames = vec![
        frame("tokio::rt::poll", Some("tokio"), "/r/tokio/rt.rs", 3),
        frame("app::main", Some("app"), "/src/app/main.rs", 20),
    ];
    let bt = Backtrace::from_frames(&frames, &filter).unwrap();
    assert_eq!(bt.entries.len(), 1);
    assert!(matches!(&bt.entries[0], BacktraceEntry::OmittedFrames { count: 1, skipped_crate: "tokio" }));
    assert_eq!(bt.total_omitted_frames, 2);
}

#[test]
fn max_entry_count_holds_for_a_run_at_the_end() {
    let filter = BacktraceFilter {
        skipped_initial_crates: &[],
        skipped_middle_crates: &["tokio"],
        skipped_final_crates: &[],
        max_entry_count: 1,
    };
    let frames = vec![
        frame("app::main", Some("app"), "/src/app/main.rs", 20),
        frame("tokio::rt::poll", Some("tokio"), "/r/tokio/rt.rs", 3),
    ];
    let bt = Backtrace::from_frames(&frames, &filter).unwrap();
    assert_eq!(bt.entries.len(), 1);
    assert!(matches!(&bt.entries[0], BacktraceEntry::Frame(f) if f.sym_demangled == "app::main"));
    assert_eq!(bt.total_omitted_frames, 1);
}

#[test]
fn no_filter_keeps_every_frame_in_order() {
    let filter = BacktraceFilter {
        skipped_initial_crates: &[],
        skipped_middle_crates: &[],
        skipped_final_crates: &[],
        max_entry_count: usize::MAX,
    };
    let frames = sample_frames();
    let bt = Backtrace::from_frames(&frames, &filter).unwrap();
    assert_eq!(bt.total_omitted_frames, 0);
    assert_eq!(bt.entries.len(), frames.len());
    for (e, f) in bt.entries.iter().zip(frames.iter()) {
        assert!(matches!(e, BacktraceEntry::Frame(g) if g.sym_demangled == f.sym_demangled));
    }
}

#[test]
fn trailing_run_is_removed_without_counting_twice() {
    let frames = vec![
        frame("app::main", Some("app"), "/src/app/main.rs", 1),
        frame("tokio::a", Some("tokio"), "/r/tokio/a.rs", 2),
        frame("tokio::b", Some("tokio"), "/r/tokio/b.rs", 3),
    ];
    let bt = Backtrace::from_frames(&frames, &BacktraceFilter::default()).unwrap();
    assert_eq!(bt.entries.len(), 1);
    assert_eq!(bt.total_omitted_frames, 2);
}

#[test]
fn nothing_left_gives_none() {
    assert!(Backtrace::from_frames(&Vec::new(), &BacktraceFilter::default()).is_none());
}

#[test]
fn backtrace_text() {
    let bt = Backtrace::from_frames(&sample_frames(), &BacktraceFilter::default()).unwrap();
    let text = BacktraceHandler::<false>::display(&bt);
    assert_eq!(
        text,
        "/src/app/load.rs:10 - read\n... omitted 2 frame(s) from crate 'tokio' ...\n/src/app/main.rs:20 - main\nnote: 5 frame(s) omitted. For a complete backtrace, set RUST_BACKTRACE=full.\n"
    );
    assert_eq!(BacktraceHandler::<false>::debug(&bt), text);
}

#[test]
fn split_paths_shown_short_unless_full() {
    let path = "/home/u/.cargo/registry/src/index.crates.io-6f17d22bba15001f/serde-1.0.1/src/de.rs";
    let fp = FramePath::new(path, &None);
    let bt = Backtrace {
        entries: vec![BacktraceEntry::Frame(Frame {
            sym_demangled: "serde::de::Deserialize::deserialize".to_string(),
            frame_path: Some(fp),
            lineno: Some(7),
        })],
        total_omitted_frames: 0,
    };
    assert_eq!(BacktraceHandler::<false>::display(&bt), "[..]/serde-1.0.1/src/de.rs:7 - deserialize\n");
    assert_eq!(BacktraceHandler::<true>::display(&bt), format!("{path}:7 - deserialize\n"));
}

#[test]
fn std_paths_are_recognized() {
    let path = "/rustc/0123456789abcdef0123456789abcdef01234567/library/core/src/panicking.rs";
    let fp = FramePath::new(path, &None);
    assert_eq!(fp.raw_path, path);
    assert_eq!(fp.crate_name.as_deref(), Some("core"));
    let split = fp.split_path.unwrap();
    assert_eq!(split.prefix_kind, "RUST_LIBRARY");
    assert_eq!(split.prefix, "/rustc/0123456789abcdef0123456789abcdef01234567/library");
    assert_eq!(split.suffix, "core/src/panicking.rs");
}

#[test]
fn registry_paths_are_recognized() {
    let path = "/home/u/.cargo/registry/src/index.crates.io-6f17d22bba15001f/tokio-1.38.0/src/runtime/mod.rs";
    let fp = FramePath::new(path, &None);
    assert_eq!(fp.crate_name.as_deref(), Some("tokio"));
    let split = fp.split_path.unwrap();
    assert_eq!(split.prefix_kind, "CARGO");
    assert_eq!(split.prefix, "/home/u/.cargo/registry/src/index.crates.io-6f17d22bba15001f");
    assert_eq!(split.suffix, "tokio-1.38.0/src/runtime/mod.rs");
}

#[test]
fn own_paths_are_recognized_with_the_matcher() {
    let matcher = get_rootcause_matcher("/home/u/rootcause/src/hooks/builtin_hooks/backtrace.rs", '/');
    assert_eq!(matcher, Some(("/home/u/rootcause/src".to_string(), 7)));
    let fp = FramePath::new("/home/u/rootcause/src/report.rs", &matcher);
    assert_eq!(fp.crate_name.as_deref(), Some("rootcause"));
    let split = fp.split_path.unwrap();
    assert_eq!(split.prefix_kind, "ROOTCAUSE");
    assert_eq!(split.prefix, "/home/u");
    assert_eq!(split.suffix, "rootcause/src/report.rs");
}

#[test]
fn matcher_needs_the_own_suffix() {
    assert_eq!(get_rootcause_matcher("/x/src/lib.rs", '/'), None);
    assert_eq!(get_rootcause_matcher("rootcause/SRC/HOOKS/builtin_hooks/backtrace.rs", '/'), Some(("rootcause/SRC".to_string(), 0)));
}

#[test]
fn other_paths_have_no_crate() {
    let fp = FramePath::new("/tmp/x.rs", &None);
    assert!(fp.crate_name.is_none());
    assert!(fp.split_path.is_none());
}

#[test]
fn collector_from_environment_values() {
    let full = BacktraceCollector::from_env_values(true, false);
    assert!(full.show_full_path);
    assert!(full.capture_backtrace_for_reports_with_children);
    assert_eq!(full.filter.max_entry_count, 20);
    assert_eq!(full.filter.skipped_initial_crates, &["backtrace", "rootcause", "core", "std", "alloc"]);
    assert_eq!(full.filter.skipped_middle_crates, &["tokio"]);
    assert_eq!(full.filter.skipped_final_crates, &["std", "core", "alloc", "tokio"]);
    let plain = BacktraceCollector::from_env_values(false, false);
    assert!(!plain.show_full_path);
    assert!(!plain.capture_backtrace_for_reports_with_children);
    assert_eq!(plain.filter.max_entry_count, usize::MAX);
    assert!(plain.filter.skipped_initial_crates.is_empty());
    assert!(plain.filter.skipped_middle_crates.is_empty());
    assert!(plain.filter.skipped_final_crates.is_empty());
    let full_leafs = BacktraceCollector::from_env_values(true, true);
    assert!(full_leafs.show_full_path);
    assert!(!full_leafs.capture_backtrace_for_reports_with_children);
    assert_eq!(full_leafs.filter.max_entry_count, 20);
    let leafs = BacktraceCollector::from_env_values(false, true);
    assert!(!leafs.show_full_path);
    assert!(!leafs.capture_backtrace_for_reports_with_children);
    assert_eq!(leafs.filter.max_entry_count, usize::MAX);
}

#[test]
fn attach_adds_a_backtrace_attachment() {
    let hooks = Hooks::new_without_locations();
    let mut r = Report::new(rootcause::__private::message_object("e".to_string(), true), Some(&hooks), Location::new("a.rs", 1));
    let c = BacktraceCollector::from_env_values(false, false);
    let bt = Backtrace::from_frames(&sample_frames(), &BacktraceFilter::default());
    c.attach(&mut r, bt);
    assert_eq!(r.attachments.len(), 1);
    let a = r.attachments.get(0).unwrap();
    assert!(matches!(a.handler, AttachmentHandlerKind::Backtrace { has_entries: true }));
    assert!(a.format_inner(FormattingFunction::Display).starts_with("/src/app/load.rs:10 - read\n"));
    let style = a.preferred_formatting_style(FormattingFunction::Display);
    assert_eq!(style.priority, 10);
}

#[test]
fn capture_runs() {
    let bt = Backtrace::capture(&BacktraceFilter::default());
    if let Some(bt) = bt {
        let _ = BacktraceHandler::<false>::display(&bt);
    }
}

#[test]
fn collector_skips_reports_with_children_when_asked() {
    let hooks = Hooks::new_without_locations();
    let child = Report::new(rootcause::__private::message_object("c".to_string(), true), Some(&hooks), Location::new("a.rs", 1));
    let mut parent = child.context(rootcause::__private::message_object("p".to_string(), true), Some(&hooks), Location::new("a.rs", 2));
    let c = BacktraceCollector::from_env_values(false, true);
    c.on_creation(&mut parent);
    assert_eq!(parent.attachments.len(), 0);
}

#[test]
fn frame_path_from_a_matched_group() {
    let path = "/x/.cargo/registry/src/idx/serde-1.0.1/src/de.rs";
    let fp = FramePath::from_group(path, "/x/.cargo/registry/src/idx/".to_string(), "serde".to_string(), "CARGO");
    assert_eq!(fp.raw_path, path);
    assert_eq!(fp.crate_name.as_deref(), Some("serde"));
    let split = fp.split_path.unwrap();
    assert_eq!(split.prefix_kind, "CARGO");
    assert_eq!(split.prefix, "/x/.cargo/registry/src/idx");
    assert_eq!(split.suffix, "serde-1.0.1/src/de.rs");
}
