use nuprompt::escape::write_with_escaped_quote;
use nuprompt::render::exit_code_shown;
use nuprompt::render::format_elapsed;
use nuprompt::render::render;
use nuprompt::render::PromptContext;
use nuprompt::shorten::shorted_path_buf;
use nuprompt::status::head_ref_or_sentinel;
use nuprompt::status::GitBits;
use nuprompt::status::StatusFlags;

fn clean() -> StatusFlags {
    StatusFlags {
        index_new: false,
        index_modified: false,
        index_deleted: false,
        index_renamed: false,
        index_typechange: false,
        wt_new: false,
        wt_modified: false,
        wt_deleted: false,
        wt_renamed: false,
        wt_typechange: false,
    }
}

fn escape(input: &[u8]) -> Vec<u8> {
    let mut out = Vec::new();
    write_with_escaped_quote(&input.to_vec(), &mut out);
    out
}

#[test]
fn classify_empty_snapshot_all_false() {
    let gb = GitBits::from_statuses(b"main".to_vec(), &Vec::new());
    assert!(!gb.index_modified);
    assert!(!gb.worktree_modified);
    assert!(!gb.untracked_files);
}

#[test]
fn classify_all_worktree_dirty_sets_worktree() {
    let mut a = clean();
    a.wt_modified = true;
    let mut b = clean();
    b.wt_deleted = true;
    let mut c = clean();
    c.wt_typechange = true;
    let mut d = clean();
    d.wt_renamed = true;
    let gb = GitBits::from_statuses(b"main".to_vec(), &vec![a, b, c, d]);
    assert!(gb.worktree_modified);
    assert!(!gb.index_modified);
    assert!(!gb.untracked_files);
}

#[test]
fn classify_combined_flags_set_both() {
    let mut f = clean();
    f.index_new = true;
    f.wt_modified = true;
    let gb = GitBits::from_statuses(b"main".to_vec(), &vec![f]);
    assert!(gb.index_modified);
    assert!(gb.worktree_modified);
    assert!(!gb.untracked_files);
}

#[test]
fn classify_untracked_only() {
    let mut f = clean();
    f.wt_new = true;
    let gb = GitBits::from_statuses(b"main".to_vec(), &vec![f]);
    assert!(!gb.index_modified);
    assert!(!gb.worktree_modified);
    assert!(gb.untracked_files);
}

#[test]
fn elements_order_and_empty() {
    let all = GitBits {
        head_ref: b"main".to_vec(),
        index_modified: true,
        worktree_modified: true,
        untracked_files: true,
    };
    let mut out = Vec::new();
    all.write_elements(&mut out);
    assert_eq!(out, b":sdu".to_vec());

    let none = GitBits {
        head_ref: b"main".to_vec(),
        index_modified: false,
        worktree_modified: false,
        untracked_files: false,
    };
    let mut out2 = Vec::new();
    none.write_elements(&mut out2);
    assert_eq!(out2, Vec::<u8>::new());

    let some = GitBits {
        head_ref: b"main".to_vec(),
        index_modified: true,
        worktree_modified: false,
        untracked_files: true,
    };
    let mut out3 = Vec::new();
    some.write_elements(&mut out3);
    assert_eq!(out3, b":su".to_vec());
}

#[test]
fn head_sentinel() {
    assert_eq!(head_ref_or_sentinel(None), b"NO HEAD".to_vec());
    assert_eq!(head_ref_or_sentinel(Some(b"dev".to_vec())), b"dev".to_vec());
}

#[test]
fn escape_obrien() {
    assert_eq!(escape(b"O'Brien"), b"O'\\''Brien".to_vec());
}

#[test]
fn escape_plain_and_empty() {
    assert_eq!(escape(b""), b"".to_vec());
    assert_eq!(escape(b"no quotes here"), b"no quotes here".to_vec());
    assert_eq!(escape(b"''"), b"'\\'''\\''".to_vec());
}

#[test]
fn shorten_home_prefix() {
    let home = b"/home/alice".to_vec();
    let out = shorted_path_buf(&b"/home/alice/projects/x".to_vec(), Some(&home));
    assert_eq!(out, b"~/projects/x".to_vec());
}

#[test]
fn shorten_unrelated_path_unchanged() {
    let home = b"/home/alice".to_vec();
    let out = shorted_path_buf(&b"/etc/x".to_vec(), Some(&home));
    assert_eq!(out, b"/etc/x".to_vec());
}

#[test]
fn shorten_similar_component_unchanged() {
    let home = b"/home/alice".to_vec();
    let out = shorted_path_buf(&b"/home/alice2/x".to_vec(), Some(&home));
    assert_eq!(out, b"/home/alice2/x".to_vec());
}

#[test]
fn shorten_without_home_unchanged() {
    let out = shorted_path_buf(&b"/home/alice/x".to_vec(), None);
    assert_eq!(out, b"/home/alice/x".to_vec());
}

#[test]
fn shorten_home_itself() {
    let home = b"/home/alice".to_vec();
    let out = shorted_path_buf(&b"/home/alice".to_vec(), Some(&home));
    assert_eq!(out, b"~".to_vec());
}

#[test]
fn format_elapsed_values() {
    assert_eq!(format_elapsed(0), b"0.00s".to_vec());
    assert_eq!(format_elapsed(1u64 << 32), b"1.00s".to_vec());
    assert_eq!(format_elapsed(10737418240), b"2.50s".to_vec());
    // just over five milliseconds rounds up to one hundredth
    assert_eq!(format_elapsed(21474837), b"0.01s".to_vec());
    // half a second plus a minute
    assert_eq!(format_elapsed((60u64 << 32) + (1u64 << 31)), b"60.50s".to_vec());
}

#[test]
fn exit_code_filter() {
    assert_eq!(exit_code_shown(b"".to_vec()), None);
    assert_eq!(exit_code_shown(b"0".to_vec()), None);
    assert_eq!(exit_code_shown(b"1".to_vec()), Some(b"1".to_vec()));
    assert_eq!(exit_code_shown(b"130".to_vec()), Some(b"130".to_vec()));
}

#[test]
fn end_to_end_plain_render() {
    let ctx = PromptContext {
        exit_code: Some(b"1".to_vec()),
        elapsed_ticks: Some(10737418240),
        user: b"alice".to_vec(),
        git: Some(GitBits {
            head_ref: b"main".to_vec(),
            index_modified: true,
            worktree_modified: false,
            untracked_files: true,
        }),
        cwd: b"~/proj".to_vec(),
    };
    let out = render(&ctx, false);
    let expected = b"PS1='[1 2.50s alice main:su ~/proj \xE2\x9F\xAB '".to_vec();
    assert_eq!(out, expected);
}

#[test]
fn plain_render_has_no_escape_bytes() {
    let ctx = PromptContext {
        exit_code: Some(b"42".to_vec()),
        elapsed_ticks: Some(123456789),
        user: b"bob".to_vec(),
        git: Some(GitBits {
            head_ref: b"feature/x".to_vec(),
            index_modified: true,
            worktree_modified: true,
            untracked_files: true,
        }),
        cwd: b"/tmp/it's here".to_vec(),
    };
    let out = render(&ctx, false);
    assert!(!out.contains(&0x1bu8));
}

#[test]
fn clean_git_segment_has_no_colon() {
    let ctx = PromptContext {
        exit_code: None,
        elapsed_ticks: None,
        user: b"alice".to_vec(),
        git: Some(GitBits {
            head_ref: b"main".to_vec(),
            index_modified: false,
            worktree_modified: false,
            untracked_files: false,
        }),
        cwd: b"~/proj".to_vec(),
    };
    let out = render(&ctx, false);
    let expected = b"PS1='[alice main ~/proj \xE2\x9F\xAB '".to_vec();
    assert_eq!(out, expected);
}

#[test]
fn colored_render_uses_ansi_sequences() {
    let ctx = PromptContext {
        exit_code: Some(b"1".to_vec()),
        elapsed_ticks: None,
        user: b"alice".to_vec(),
        git: None,
        cwd: b"~".to_vec(),
    };
    let out = render(&ctx, true);
    let expected = b"PS1='[\x1b[0m\x1b[31m1 \x1b[0m\x1b[1m\x1b[38;5;14malice \x1b[0m~ \xE2\x9F\xAB '"
        .to_vec();
    assert_eq!(out, expected);
}

#[test]
fn escaped_cwd_in_render() {
    let ctx = PromptContext {
        exit_code: None,
        elapsed_ticks: None,
        user: b"u".to_vec(),
        git: None,
        cwd: b"~/o'clock".to_vec(),
    };
    let out = render(&ctx, false);
    let expected = b"PS1='[u ~/o'\\''clock \xE2\x9F\xAB '".to_vec();
    assert_eq!(out, expected);
}
