use lagon::deployments::{
    bundle_output, check_config_removable, client_asset_name, deployment_endpoint, esbuild_args,
    function_url, upload_answer, upload_parts, DeployError, DeploymentConfig, CONFIG_PATH,
};
use lagon::pipeline::{DeployAction, DeployEvent, DeployStage, Deployment};

#[test]
fn removing_missing_config_fails() {
    assert_eq!(check_config_removable(false), Err(DeployError::NoConfiguration));
    assert_eq!(check_config_removable(true), Ok(()));
    assert_eq!(DeployError::NoConfiguration.message(), "No configuration found in this directory.");
    assert_eq!(CONFIG_PATH, ".lagon/config.json");
}

#[test]
fn config_holds_both_ids() {
    let c = DeploymentConfig { function_id: "f1".to_string(), organization_id: "o1".to_string() };
    assert_eq!(c.function_id, "f1");
    assert_eq!(c.organization_id, "o1");
}

#[test]
fn bundler_arguments() {
    assert_eq!(
        esbuild_args("src/index.ts"),
        vec!["src/index.ts", "--bundle", "--format=esm", "--target=es2020", "--platform=browser"]
    );
}

#[test]
fn bundler_output_cases() {
    assert_eq!(bundle_output(true, "exit status: 0", b"let a = 1;".to_vec()), Ok("let a = 1;".to_string()));
    assert_eq!(bundle_output(true, "exit status: 0", vec![0xff, 0xfe]), Err(DeployError::InvalidOutput));
    let e = bundle_output(false, "exit status: 1", b"x".to_vec()).unwrap_err();
    assert_eq!(e, DeployError::UnexpectedStatus("exit status: 1".to_string()));
    assert_eq!(e.message(), "Unexpected status code exit status: 1");
    assert_eq!(DeployError::InvalidOutput.message(), "Failed to convert output to string");
}

#[test]
fn client_asset_is_named_by_its_file() {
    assert_eq!(client_asset_name("src/client.tsx"), Ok("client.tsx".to_string()));
    assert_eq!(client_asset_name("client.js"), Ok("client.js".to_string()));
    assert_eq!(client_asset_name("src/.."), Err(DeployError::InvalidClientPath));
    assert_eq!(client_asset_name("/"), Err(DeployError::InvalidClientPath));
}

#[test]
fn urls() {
    assert_eq!(deployment_endpoint("https://dash.lagon.app/api"), "https://dash.lagon.app/api/deployment");
    assert_eq!(function_url("blue-fox"), "https://blue-fox.lagon.app");
}

#[test]
fn upload_form_parts() {
    let assets = vec![("client.js".to_string(), "c()".to_string())];
    let parts = upload_parts("fn1", "code()", &assets);
    assert_eq!(parts.len(), 3);
    assert_eq!(parts[0].name, "functionId");
    assert_eq!(parts[0].content, "fn1");
    assert_eq!(parts[0].file_name, None);
    assert_eq!(parts[1].name, "code");
    assert_eq!(parts[1].file_name.as_deref(), Some("index.js"));
    assert_eq!(parts[1].content_type.as_deref(), Some("text/javascript"));
    assert_eq!(parts[1].content, "code()");
    assert_eq!(parts[2].name, "assets");
    assert_eq!(parts[2].file_name.as_deref(), Some("client.js"));
    assert_eq!(parts[2].content_type, None);
    assert_eq!(parts[2].content, "c()");
}

#[test]
fn missing_bundler_stops_before_any_upload() {
    let mut d = Deployment::new("fn1".to_string(), "index.ts".to_string(), None);
    let a = d.step(DeployEvent::BundlerChecked(false));
    match a {
        DeployAction::Abort(e) => {
            assert_eq!(e, DeployError::BundlerMissing);
            assert_eq!(
                e.message(),
                "esbuild is not installed. Please install it with `npm install -g esbuild`"
            );
        }
        _ => panic!("expected an abort"),
    }
    assert_eq!(d.stage(), DeployStage::Failed);
    assert!(matches!(d.step(DeployEvent::Bundled(Ok("x".to_string()))), DeployAction::Nothing));
    assert!(matches!(d.step(DeployEvent::Uploaded(Ok("n".to_string()))), DeployAction::Nothing));
    assert_eq!(d.stage(), DeployStage::Failed);
}

#[test]
fn deployment_with_client_runs_every_step() {
    let mut d = Deployment::new("fn1".to_string(), "index.ts".to_string(), Some("web/client.ts".to_string()));
    assert!(matches!(d.step(DeployEvent::BundlerChecked(true)), DeployAction::Bundle(p) if p == "index.ts"));
    assert!(matches!(d.step(DeployEvent::Bundled(Ok("i()".to_string()))), DeployAction::Bundle(p) if p == "web/client.ts"));
    match d.step(DeployEvent::Bundled(Ok("c()".to_string()))) {
        DeployAction::Upload(parts) => {
            assert_eq!(parts.len(), 3);
            assert_eq!(parts[1].content, "i()");
            assert_eq!(parts[2].file_name.as_deref(), Some("client.ts"));
            assert_eq!(parts[2].content, "c()");
        }
        _ => panic!("expected an upload"),
    }
    assert!(matches!(d.step(DeployEvent::Uploaded(Ok("blue-fox".to_string()))), DeployAction::Announce(u) if u == "https://blue-fox.lagon.app"));
    assert_eq!(d.stage(), DeployStage::Deployed);
}

#[test]
fn deployment_without_client_uploads_after_index() {
    let mut d = Deployment::new("fn1".to_string(), "index.ts".to_string(), None);
    d.step(DeployEvent::BundlerChecked(true));
    match d.step(DeployEvent::Bundled(Ok("i()".to_string()))) {
        DeployAction::Upload(parts) => assert_eq!(parts.len(), 2),
        _ => panic!("expected an upload"),
    }
    assert_eq!(d.stage(), DeployStage::Uploading);
}

#[test]
fn failed_bundle_or_upload_aborts() {
    let mut d = Deployment::new("fn1".to_string(), "index.ts".to_string(), None);
    d.step(DeployEvent::BundlerChecked(true));
    let e = DeployError::UnexpectedStatus("exit status: 1".to_string());
    assert!(matches!(d.step(DeployEvent::Bundled(Err(e.clone()))), DeployAction::Abort(x) if x == e));
    let mut d = Deployment::new("fn1".to_string(), "index.ts".to_string(), None);
    d.step(DeployEvent::BundlerChecked(true));
    d.step(DeployEvent::Bundled(Ok("i()".to_string())));
    let e = DeployError::UploadTransport("connection refused".to_string());
    assert_eq!(e.message(), "Could not reach the server: connection refused");
    assert!(matches!(d.step(DeployEvent::Uploaded(Err(e.clone()))), DeployAction::Abort(x) if x == e));
}

#[test]
fn out_of_order_event_aborts() {
    let mut d = Deployment::new("fn1".to_string(), "index.ts".to_string(), None);
    assert!(matches!(d.step(DeployEvent::Uploaded(Ok("n".to_string()))), DeployAction::Abort(DeployError::OutOfOrder)));
}

#[test]
fn upload_answers_are_told_apart() {
    assert_eq!(upload_answer(200, "200 OK", Some("blue-fox".to_string())), Ok("blue-fox".to_string()));
    let e = upload_answer(401, "401 Unauthorized", None).unwrap_err();
    assert_eq!(e, DeployError::Unauthorized("401 Unauthorized".to_string()));
    assert_eq!(e.message(), "The server refused the token: 401 Unauthorized");
    assert_eq!(
        upload_answer(403, "403 Forbidden", Some("x".to_string())),
        Err(DeployError::Unauthorized("403 Forbidden".to_string()))
    );
    assert_eq!(
        upload_answer(200, "200 OK", None),
        Err(DeployError::MalformedResponse("200 OK".to_string()))
    );
    assert_eq!(
        upload_answer(500, "500 Internal Server Error", Some("x".to_string())),
        Err(DeployError::MalformedResponse("500 Internal Server Error".to_string()))
    );
}

#[test]
fn bundler_that_cannot_start_keeps_its_reason() {
    let e = DeployError::BundlerNotRun("permission denied".to_string());
    assert_eq!(e.message(), "permission denied");
}
