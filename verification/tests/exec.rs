use short::exec::{AwsOutPutS3Exists, EmptyCtx, ExecCtx, Output, Software};
use short::Error;

#[test]
fn exec_ctx() {
    let exec_ctx = ExecCtx::new();
    assert!(!exec_ctx.dry_run());
    let exec_ctx = exec_ctx.set_dry_run(true);
    assert!(exec_ctx.dry_run());
}

#[test]
fn aws_out_put_s3exists() {
    let output = Output {
        fail: None,
        stderr: vec![],
        stdout: vec![],
    };
    let aws_out_put_s3exists: Result<AwsOutPutS3Exists, Error> =
        AwsOutPutS3Exists::from_output(output);
    assert!(aws_out_put_s3exists.unwrap().is_exists());

    let output = Output {
        fail: Some(Error::from(Some(255))),
        stderr: vec![],
        stdout: vec![],
    };
    let aws_out_put_s3exists: Result<AwsOutPutS3Exists, Error> =
        AwsOutPutS3Exists::from_output(output);
    assert!(!aws_out_put_s3exists.unwrap().is_exists());
}

#[test]
fn runner_command_line() {
    let exec_ctx = ExecCtx::new();
    let mut soft = Software::fake("echo", &exec_ctx);
    soft.args(&vec!["a b".to_string(), "b".to_string(), "".to_string()]);
    let runner = soft.runner(EmptyCtx {});
    assert!(runner.command_line().ends_with("echo \"a b\" b "));
}

#[test]
fn arg() {
    let exec_ctx = ExecCtx::new();
    let mut soft = Software::fake("rustc", &exec_ctx);
    soft.arg("--version");
    assert_eq!(soft.get_args(), &vec![String::from("--version")])
}

#[test]
fn args() {
    let exec_ctx = ExecCtx::new();
    let mut soft = Software::fake("rustc", &exec_ctx);
    soft.args(&vec!["--help".to_string(), "-v".to_string()]);
    assert_eq!(
        soft.get_args(),
        &vec![String::from("--help"), String::from("-v")]
    );
    assert_eq!(soft.path(), "rustc");
}

#[test]
fn exit_code_comparison() {
    let err = Error::from(Some(255));
    assert!(err.exit_code_eq(255));
    assert!(!err.exit_code_eq(1));
    let err = Error::from(None);
    assert!(!err.exit_code_eq(255));
    assert!(!Error::MissingPath.exit_code_eq(255));
}
