use git_credentials::program::Platform;
use git_credentials::{Cascade, Program};

fn names(programs: &[Program]) -> Vec<&str> {
    programs.iter().map(|p| p.name.as_str()).collect()
}

#[test]
fn default_cascade_is_empty_and_shows_errors() {
    let cascade = Cascade::default();
    assert!(cascade.programs.is_empty());
    assert!(cascade.stderr);
}

#[test]
fn builtin_program_by_platform() {
    assert_eq!(names(&Cascade::platform_builtin(Platform::MacOs)), vec!["osxkeychain"]);
    assert_eq!(names(&Cascade::platform_builtin(Platform::Linux)), vec!["libsecret"]);
    assert_eq!(names(&Cascade::platform_builtin(Platform::Windows)), vec!["manager-core"]);
    assert!(Cascade::platform_builtin(Platform::Other).is_empty());
    assert!(Cascade::platform_builtin(Platform::Linux)[0].stderr);
}

#[test]
fn program_from_definition() {
    let program = Program::from_custom_definition("store --file=x");
    assert_eq!(
        program,
        Program {
            name: "store --file=x".to_string(),
            stderr: true,
        }
    );
    assert_eq!(program.clone(), program);
}

#[test]
fn extend_adds_programs_behind() {
    let mut quiet = Cascade::default();
    quiet.stderr = false;
    let cascade = quiet
        .extend(Cascade::platform_builtin(Platform::Linux))
        .extend(vec![])
        .extend(vec![
            Program::from_custom_definition("one"),
            Program {
                name: "two".to_string(),
                stderr: false,
            },
        ]);
    assert_eq!(names(&cascade.programs), vec!["libsecret", "one", "two"]);
    assert_eq!(
        cascade.programs.iter().map(|p| p.stderr).collect::<Vec<_>>(),
        vec![true, true, false]
    );
    assert!(!cascade.stderr);
}
