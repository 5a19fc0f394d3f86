use mind_meld::project::{program_git, Program, ProjectID};

#[test]
fn program_git_knows_both_tokens() {
    assert_eq!(program_git("mindstorms").unwrap(), Program::Mindstorms);
    assert_eq!(program_git("spike").unwrap(), Program::Spike);
}

#[test]
fn program_git_refuses_other_names() {
    let err = program_git("Spike").unwrap_err();
    assert_eq!(err.name, "Spike");
    assert_eq!(err.message(), "invalid program Spike");
}

#[test]
fn project_label_and_path() {
    let id = ProjectID::new(Program::Spike, "Project 1.llsp3");
    assert_eq!(id.label(), "spike: Project 1.llsp3");
    assert_eq!(id.store_path(), "spike/Project 1.llsp3");
}

#[test]
fn project_name_is_one_path_segment() {
    assert!(ProjectID::new(Program::Spike, "Project 1.llsp3").is_well_formed());
    assert!(ProjectID::new(Program::Spike, "").is_well_formed());
    assert!(!ProjectID::new(Program::Spike, "dir/a.llsp3").is_well_formed());
    assert!(!ProjectID::new(Program::Mindstorms, "a/").is_well_formed());
}
