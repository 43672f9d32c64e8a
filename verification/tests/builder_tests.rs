use jenkins_api::JenkinsBuilder;

const JENKINS_URL: &str = "http://none:8080";

#[test]
fn create_builder() {
    let jenkins_client = JenkinsBuilder::new(JENKINS_URL);

    assert_eq!(jenkins_client.url, JENKINS_URL);
    assert_eq!(jenkins_client.user, None);
    assert_eq!(jenkins_client.csrf_enabled, true);
}

#[test]
fn create_builder_with_trailing_slash() {
    let jenkins_client = JenkinsBuilder::new(&format!("{}/", JENKINS_URL));

    assert_eq!(jenkins_client.url, JENKINS_URL);
    assert_eq!(jenkins_client.user, None);
    assert_eq!(jenkins_client.csrf_enabled, true);
}

#[test]
fn disable_csrf() {
    let jenkins_client = JenkinsBuilder::new(JENKINS_URL).disable_csrf();

    assert_eq!(jenkins_client.url, JENKINS_URL);
    assert_eq!(jenkins_client.user, None);
    assert_eq!(jenkins_client.csrf_enabled, false);
}

#[test]
fn builder_keeps_user_and_depth() {
    let jenkins_client = JenkinsBuilder::new(JENKINS_URL)
        .with_user("user", Some("password"))
        .with_depth(3);

    assert_eq!(jenkins_client.url, JENKINS_URL);
    assert_eq!(jenkins_client.depth, 3);
    let user = jenkins_client.user.expect("user should be set");
    assert_eq!(user.username, "user");
    assert_eq!(user.password, Some("password".to_string()));
}

#[test]
fn builder_clears_timeout() {
    let jenkins_client = JenkinsBuilder::new(JENKINS_URL).with_timeout(None);

    assert!(jenkins_client.timeout.is_none());
}
