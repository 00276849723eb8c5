use devcontainer_config::executable_name;
use devcontainer_config::plan_invocation;
use devcontainer_config::Error;
use devcontainer_config::PathStatus;

#[test]
fn missing_path_fails_before_any_invocation() {
    let r = plan_invocation(Some(PathStatus {
        text: "/no/such/place".to_string(),
        exists: false,
    }));
    assert_eq!(r, Err(Error::InvalidPath("/no/such/place".to_string())));
}

#[test]
fn existing_path_is_appended_to_the_subcommand() {
    let r = plan_invocation(Some(PathStatus {
        text: "/some/project".to_string(),
        exists: true,
    }));
    assert_eq!(
        r,
        Ok(vec!["read-configuration".to_string(), "/some/project".to_string()])
    );
}

#[test]
fn no_path_means_the_subcommand_alone() {
    let r = plan_invocation(None);
    assert_eq!(r, Ok(vec!["read-configuration".to_string()]));
}

#[test]
fn executable_name_depends_on_the_host() {
    assert_eq!(executable_name(true), "devcontainer.cmd");
    assert_eq!(executable_name(false), "devcontainer");
}

#[test]
fn error_messages_name_their_kind() {
    assert_eq!(
        Error::InvalidPath("/x".to_string()).message(),
        "Invalid path: /x"
    );
    assert_eq!(Error::IoError("broken pipe".to_string()).message(), "IO error: broken pipe");
    assert_eq!(Error::Utf8Error("bad byte".to_string()).message(), "UTF8 error: bad byte");
}
