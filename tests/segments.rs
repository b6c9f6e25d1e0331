use statusbar::custom::{
    command_line, cpu_idle_field, get_command_output, program_and_args, ram_fields, trim, words, BacklightOpts, Cmd, CpuOpts, CustomSettings, Reading,
    RamOpts, SegmentError,
};
use statusbar::listeners::Trigger;
use statusbar::workspaces::{hyprland, workspaces, WorkspacesIcons};

fn icons() -> WorkspacesIcons {
    WorkspacesIcons { active: "A".to_string(), inactive: "i".to_string() }
}

fn custom(command: &str) -> Cmd {
    Cmd::Custom(CustomSettings {
        command: command.to_string(),
        name: "volume".to_string(),
        event: Trigger::TimePassed(100),
        formatting: " s%".to_string(),
    })
}

#[test]
fn indicator_marks_the_active_workspace() {
    assert_eq!(workspaces(&icons(), 2, 4), "i A i i ");
    assert_eq!(workspaces(&icons(), 1, 1), "A ");
}

#[test]
fn indicator_past_the_end_marks_the_last() {
    assert_eq!(workspaces(&icons(), 9, 3), "i i A ");
}

#[test]
fn indicator_edges() {
    assert_eq!(workspaces(&icons(), 0, 3), "i i i ");
    assert_eq!(workspaces(&icons(), 3, 0), "");
}

#[test]
fn hyprland_id_cast() {
    assert_eq!(hyprland(3, 5), (3, 5));
    assert_eq!(hyprland(-1, 5), (usize::MAX, 5));
}

#[test]
fn trim_strips_both_ends() {
    assert_eq!(trim("  42 \n"), "42");
    assert_eq!(trim("\t a b \u{3000}"), "a b");
    assert_eq!(trim("   "), "");
    assert_eq!(trim(""), "");
    assert_eq!(trim("x"), "x");
}

#[test]
fn command_line_splits_words() {
    let (program, args) = command_line("  pamixer   --get-volume\t-x ").unwrap();
    assert_eq!(program, "pamixer");
    assert_eq!(args, vec!["--get-volume".to_string(), "-x".to_string()]);
    let (program, args) = command_line("date").unwrap();
    assert_eq!(program, "date");
    assert!(args.is_empty());
}

#[test]
fn empty_command_line_is_refused() {
    assert_eq!(command_line(""), Err(SegmentError::EmptyCommand));
    assert_eq!(command_line(" \n "), Err(SegmentError::EmptyCommand));
}

#[test]
fn custom_output_is_trimmed() {
    let r = get_command_output(&custom("pamixer --get-volume"), Reading::Output(" 35\n".to_string()));
    assert_eq!(r, Ok("35".to_string()));
    let r = get_command_output(&custom("false"), Reading::Failed);
    assert_eq!(r, Err(SegmentError::CommandFailed));
}

#[test]
fn workspace_segment_from_state() {
    let r = get_command_output(&Cmd::Workspaces(icons()), Reading::Workspaces(1, 2));
    assert_eq!(r, Ok("A i ".to_string()));
    let r = get_command_output(&Cmd::Workspaces(icons()), Reading::Failed);
    assert_eq!(r, Err(SegmentError::ReadFailed));
}

#[test]
fn window_title_defaults_to_empty() {
    let r = get_command_output(&Cmd::WindowTitle, Reading::Output(" term ".to_string()));
    assert_eq!(r, Ok(" term ".to_string()));
    let r = get_command_output(&Cmd::WindowTitle, Reading::Failed);
    assert_eq!(r, Ok(String::new()));
}

#[test]
fn measured_values_pass_through() {
    let r = get_command_output(&Cmd::Backlight(BacklightOpts::Perc), Reading::Value("50".to_string()));
    assert_eq!(r, Ok("50".to_string()));
    let r = get_command_output(&Cmd::Memory(RamOpts::Used), Reading::Value("1024".to_string()));
    assert_eq!(r, Ok("1024".to_string()));
    let r = get_command_output(&Cmd::Cpu(CpuOpts::Perc), Reading::Failed);
    assert_eq!(r, Err(SegmentError::ReadFailed));
    let r = get_command_output(&Cmd::Memory(RamOpts::Free), Reading::Failed);
    assert_eq!(r, Err(SegmentError::ReadFailed));
    let r = get_command_output(&Cmd::Backlight(BacklightOpts::Value), Reading::Failed);
    assert_eq!(r, Err(SegmentError::ReadFailed));
}

#[test]
fn mismatched_reading_is_refused() {
    let r = get_command_output(&Cmd::Cpu(CpuOpts::Perc), Reading::Workspaces(1, 1));
    assert_eq!(r, Err(SegmentError::Mismatch));
    let r = get_command_output(&custom("date"), Reading::Value("x".to_string()));
    assert_eq!(r, Err(SegmentError::Mismatch));
}

#[test]
fn program_and_args_from_words() {
    let words = vec!["free".to_string(), "-m".to_string()];
    assert_eq!(program_and_args(words), Ok(("free".to_string(), vec!["-m".to_string()])));
    assert_eq!(program_and_args(Vec::new()), Err(SegmentError::EmptyCommand));
}

#[test]
fn free_output_columns() {
    let out = "              total        used        free      shared  buff/cache   available\n\
               Mem:           15843        4321        8000         100        3500       11000\n";
    let w = words(out);
    assert_eq!(w.len(), 13);
    assert_eq!(ram_fields(&w), Some(("15843".to_string(), "4321".to_string())));
    assert_eq!(ram_fields(&words("a b c")), None);
}

#[test]
fn mpstat_idle_column() {
    let out = "12:00:01 AM  all  1.00  0.00  0.50  0.00  0.00  0.10  0.00  0.00  0.00  98.40\n";
    assert_eq!(cpu_idle_field(&words(out)), Some("98.40".to_string()));
    assert_eq!(cpu_idle_field(&words(" \n")), None);
}
