use jenkins_api::decode::{queue_item_path, url_to_path};
use jenkins_api::error::{Error, ExpectedType};
use jenkins_api::{BuildNumber, Name, Path};

const JENKINS_URL: &str = "http://none:8080";

#[test]
fn can_parse_view_path() {
    let path = url_to_path(JENKINS_URL, "/view/myview/");
    assert_eq!(
        path,
        Ok(Path::View {
            name: Name::UrlEncodedName("myview".to_string())
        })
    );
}

#[test]
fn can_parse_job_path() {
    let path = url_to_path(JENKINS_URL, "/job/myjob/");
    assert_eq!(
        path,
        Ok(Path::Job {
            name: Name::UrlEncodedName("myjob".to_string()),
            configuration: None
        })
    );
}

#[test]
fn can_parse_job_with_config_path() {
    let path = url_to_path(JENKINS_URL, "/job/myjob/config/");
    assert_eq!(
        path,
        Ok(Path::Job {
            name: Name::UrlEncodedName("myjob".to_string()),
            configuration: Some(Name::UrlEncodedName("config".to_string()))
        })
    );
}

#[test]
fn can_parse_build_path() {
    let path = url_to_path(JENKINS_URL, "/job/myjob/1/");
    assert_eq!(
        path,
        Ok(Path::Build {
            job_name: Name::UrlEncodedName("myjob".to_string()),
            number: BuildNumber::Number(1),
            configuration: None
        })
    );
}

#[test]
fn can_parse_build_with_config_path() {
    let path = url_to_path(JENKINS_URL, "/job/myjob/config/1/");
    assert_eq!(
        path,
        Ok(Path::Build {
            job_name: Name::UrlEncodedName("myjob".to_string()),
            number: BuildNumber::Number(1),
            configuration: Some(Name::UrlEncodedName("config".to_string()))
        })
    );
}

#[test]
fn can_parse_unknown_path() {
    let path = url_to_path(JENKINS_URL, "/unknown/path/");
    assert_eq!(
        path,
        Ok(Path::Raw {
            path: "/unknown/path/".to_string()
        })
    );
}

#[test]
fn can_parse_job_path_with_jenkins_url() {
    let path_url = format!("{}/job/myjob/", JENKINS_URL);
    let path = url_to_path(JENKINS_URL, &path_url);
    assert_eq!(
        path,
        Ok(Path::Job {
            name: Name::UrlEncodedName("myjob".to_string()),
            configuration: None
        })
    );
}

#[test]
fn can_parse_folder_path() {
    let path = url_to_path(JENKINS_URL, "/job/folder/job/inner/");
    assert_eq!(
        path,
        Ok(Path::InFolder {
            folder_name: Name::UrlEncodedName("folder".to_string()),
            path: Box::new(Path::Job {
                name: Name::UrlEncodedName("inner".to_string()),
                configuration: None
            })
        })
    );
}

#[test]
fn can_parse_queue_item_path() {
    let path = url_to_path(JENKINS_URL, "/queue/item/123/");
    assert_eq!(path, Ok(Path::QueueItem { id: 123 }));
}

#[test]
fn can_parse_negative_queue_item_path() {
    let path = url_to_path(JENKINS_URL, "/queue/item/-5/");
    assert_eq!(path, Ok(Path::QueueItem { id: -5 }));
}

#[test]
fn can_parse_extreme_queue_item_ids() {
    assert_eq!(
        url_to_path(JENKINS_URL, "/queue/item/-2147483648/"),
        Ok(Path::QueueItem { id: i32::MIN })
    );
    assert_eq!(
        url_to_path(JENKINS_URL, "/queue/item/2147483647/"),
        Ok(Path::QueueItem { id: i32::MAX })
    );
    assert_eq!(
        url_to_path(JENKINS_URL, "/queue/item/2147483648/"),
        Err(Error::MalformedPath {
            path: "/queue/item/2147483648/".to_string()
        })
    );
}

#[test]
fn can_parse_maven_artifacts_with_config() {
    let path = url_to_path(JENKINS_URL, "/job/myjob/cfg/3/mavenArtifacts/");
    assert_eq!(
        path,
        Ok(Path::MavenArtifactRecord {
            job_name: Name::UrlEncodedName("myjob".to_string()),
            number: BuildNumber::Number(3),
            configuration: Some(Name::UrlEncodedName("cfg".to_string()))
        })
    );
}

#[test]
fn configuration_named_job_decodes_as_folder() {
    // a build of a configuration literally named `job` renders as a
    // path that the grammar reads as a folder instead
    let path = url_to_path(JENKINS_URL, "/job/myjob/job/5/");
    assert_eq!(
        path,
        Ok(Path::InFolder {
            folder_name: Name::UrlEncodedName("myjob".to_string()),
            path: Box::new(Path::Job {
                name: Name::UrlEncodedName("5".to_string()),
                configuration: None
            })
        })
    );
}

#[test]
fn malformed_queue_item_is_an_error() {
    let path = url_to_path(JENKINS_URL, "/queue/item/notanumber/");
    assert_eq!(
        path,
        Err(Error::MalformedPath {
            path: "/queue/item/notanumber/".to_string()
        })
    );
}

#[test]
fn maven_artifacts_without_config_is_malformed() {
    // the five-slash artifact rule parses its number from the text after
    // the fourth slash, which is the `mavenArtifacts` keyword itself
    let path = url_to_path(JENKINS_URL, "/job/myjob/1/mavenArtifacts/");
    assert_eq!(
        path,
        Err(Error::MalformedPath {
            path: "/job/myjob/1/mavenArtifacts/".to_string()
        })
    );
}

#[test]
fn explicitly_signed_number_decodes_as_build() {
    // numeric parsing accepts a single leading plus sign
    let path = url_to_path(JENKINS_URL, "/job/myjob/+12/");
    assert_eq!(
        path,
        Ok(Path::Build {
            job_name: Name::UrlEncodedName("myjob".to_string()),
            number: BuildNumber::Number(12),
            configuration: None
        })
    );
}

#[test]
fn numeric_overflow_decodes_as_configuration() {
    // a segment too large for a build number is a configuration name
    let path = url_to_path(JENKINS_URL, "/job/myjob/4294967296/");
    assert_eq!(
        path,
        Ok(Path::Job {
            name: Name::UrlEncodedName("myjob".to_string()),
            configuration: Some(Name::UrlEncodedName("4294967296".to_string()))
        })
    );
}

#[test]
fn queue_item_path_accepts_queue_item_urls() {
    let url = format!("{}/queue/item/12/", JENKINS_URL);
    assert_eq!(
        queue_item_path(JENKINS_URL, &url),
        Ok(Path::QueueItem { id: 12 })
    );
}

#[test]
fn queue_item_path_rejects_other_urls() {
    let url = format!("{}/job/myjob/", JENKINS_URL);
    assert_eq!(
        queue_item_path(JENKINS_URL, &url),
        Err(Error::InvalidUrl {
            url: url.clone(),
            expected: ExpectedType::QueueItem
        })
    );
}

#[test]
fn renders_home_view_and_job() {
    assert_eq!(Path::Home.to_string(), "");
    assert_eq!(
        Path::View {
            name: Name::UrlEncodedName("a view".to_string())
        }
        .to_string(),
        "/view/a view"
    );
    assert_eq!(
        Path::Job {
            name: Name::UrlEncodedName("myjob".to_string()),
            configuration: None
        }
        .to_string(),
        "/job/myjob"
    );
    assert_eq!(
        Path::Job {
            name: Name::UrlEncodedName("myjob".to_string()),
            configuration: Some(Name::UrlEncodedName("cfg".to_string()))
        }
        .to_string(),
        "/job/myjob/cfg"
    );
}

#[test]
fn renders_raw_names_percent_encoded() {
    assert_eq!(
        Path::Job {
            name: Name::Name("a job".to_string()),
            configuration: None
        }
        .to_string(),
        "/job/a%20job"
    );
    assert_eq!(
        Path::Computer {
            name: Name::Name("node/1".to_string())
        }
        .to_string(),
        "/computer/node%2F1/api/json"
    );
}

#[test]
fn renders_builds_and_aliases() {
    assert_eq!(
        Path::Build {
            job_name: Name::UrlEncodedName("j".to_string()),
            number: BuildNumber::Number(42),
            configuration: None
        }
        .to_string(),
        "/job/j/42"
    );
    assert_eq!(
        Path::Build {
            job_name: Name::UrlEncodedName("j".to_string()),
            number: BuildNumber::LastBuild,
            configuration: None
        }
        .to_string(),
        "/job/j/lastBuild"
    );
    assert_eq!(
        Path::Build {
            job_name: Name::UrlEncodedName("j".to_string()),
            number: BuildNumber::LastSuccessfulBuild,
            configuration: Some(Name::UrlEncodedName("cfg".to_string()))
        }
        .to_string(),
        "/job/j/cfg/lastSuccessfulBuild"
    );
    assert_eq!(
        Path::Build {
            job_name: Name::UrlEncodedName("j".to_string()),
            number: BuildNumber::LastCompletedBuild,
            configuration: None
        }
        .to_string(),
        "/job/j/lastCompletedBuild"
    );
}

#[test]
fn renders_actions_and_fixed_paths() {
    let name = || Name::UrlEncodedName("j".to_string());
    assert_eq!(Path::BuildJob { name: name() }.to_string(), "/job/j/build");
    assert_eq!(
        Path::BuildJobWithParameters { name: name() }.to_string(),
        "/job/j/buildWithParameters"
    );
    assert_eq!(Path::PollSCMJob { name: name() }.to_string(), "/job/j/polling");
    assert_eq!(Path::JobEnable { name: name() }.to_string(), "/job/j/enable");
    assert_eq!(Path::JobDisable { name: name() }.to_string(), "/job/j/disable");
    assert_eq!(Path::Queue.to_string(), "/queue");
    assert_eq!(Path::QueueItem { id: 12 }.to_string(), "/queue/item/12");
    assert_eq!(Path::QueueItem { id: -3 }.to_string(), "/queue/item/-3");
    assert_eq!(Path::Computers.to_string(), "/computer/api/json");
    assert_eq!(Path::CrumbIssuer.to_string(), "/crumbIssuer");
    assert_eq!(
        Path::Raw {
            path: "/anything at all".to_string()
        }
        .to_string(),
        "/anything at all"
    );
}

#[test]
fn renders_views_and_console_text() {
    let j = || Name::UrlEncodedName("j".to_string());
    let v = || Name::UrlEncodedName("v".to_string());
    let f = || Name::UrlEncodedName("f".to_string());
    let c = || Name::UrlEncodedName("c".to_string());
    assert_eq!(
        Path::AddJobToView {
            job_name: j(),
            view_name: v()
        }
        .to_string(),
        "/view/v/addJobToView?name=j"
    );
    assert_eq!(
        Path::RemoveJobFromView {
            job_name: j(),
            view_name: v()
        }
        .to_string(),
        "/view/v/removeJobFromView?name=j"
    );
    assert_eq!(
        Path::ConsoleText {
            job_name: j(),
            number: BuildNumber::Number(7),
            configuration: None,
            folder_name: None
        }
        .to_string(),
        "/job/j/7/consoleText"
    );
    assert_eq!(
        Path::ConsoleText {
            job_name: j(),
            number: BuildNumber::Number(7),
            configuration: Some(c()),
            folder_name: Some(f())
        }
        .to_string(),
        "/job/f/job/j/c/7/consoleText"
    );
    assert_eq!(
        Path::ConfigXML {
            job_name: j(),
            folder_name: None
        }
        .to_string(),
        "/job/j/config.xml"
    );
    assert_eq!(
        Path::ConfigXML {
            job_name: j(),
            folder_name: Some(f())
        }
        .to_string(),
        "/job/f/job/j/config.xml"
    );
    assert_eq!(
        Path::MavenArtifactRecord {
            job_name: j(),
            number: BuildNumber::Number(5),
            configuration: None
        }
        .to_string(),
        "/job/j/5/mavenArtifacts"
    );
}

#[test]
fn rendering_is_deterministic() {
    let p = Path::InFolder {
        folder_name: Name::UrlEncodedName("fold".to_string()),
        path: Box::new(Path::Job {
            name: Name::Name("a job".to_string()),
            configuration: None,
        }),
    };
    assert_eq!(p.to_string(), p.to_string());
    assert_eq!(p.to_string(), "/job/fold/job/a%20job");
}

#[test]
fn folder_round_trip() {
    let p = Path::InFolder {
        folder_name: Name::UrlEncodedName("fold".to_string()),
        path: Box::new(Path::Job {
            name: Name::UrlEncodedName("jobx".to_string()),
            configuration: None,
        }),
    };
    let rendered = format!("{}/", p.to_string());
    assert_eq!(url_to_path(JENKINS_URL, &rendered), Ok(p));
}
