use linuxsgc::gl::{
    choose_config, continue_gl, start_gl, ContextApi, GlConfig, GlError, GlOutcome, GlStep,
};

fn config(transparency: Option<bool>, samples: u8) -> GlConfig {
    GlConfig { transparency, samples }
}

fn failed(text: &str) -> GlOutcome {
    GlOutcome::Failed(text.to_string())
}

fn message(step: GlStep) -> String {
    match step {
        GlStep::Failed(err) => err.message(),
        other => panic!("{other:?}"),
    }
}

#[test]
fn the_first_with_the_fewest_samples_is_chosen() {
    let configs = [config(None, 4), config(None, 0), config(None, 2), config(None, 0)];
    assert_eq!(choose_config(&configs), Some(1));
    assert_eq!(choose_config(&[]), None);
    assert_eq!(choose_config(&[config(Some(false), 8)]), Some(0));
}

#[test]
fn no_transparency_is_preferred() {
    let configs = [config(Some(true), 0), config(None, 4), config(Some(false), 2)];
    assert_eq!(choose_config(&configs), Some(2));
    let configs = [config(Some(false), 0), config(Some(true), 4)];
    assert_eq!(choose_config(&configs), Some(0));
    let configs = [config(Some(true), 4), config(Some(true), 2), config(Some(true), 2)];
    assert_eq!(choose_config(&configs), Some(1));
}

#[test]
fn the_order_decides_only_between_equals() {
    let (plain, clear, rough) = (config(None, 0), config(Some(true), 0), config(None, 8));
    assert_eq!(choose_config(&[plain, clear, rough]), Some(0));
    assert_eq!(choose_config(&[clear, plain, rough]), Some(1));
    assert_eq!(choose_config(&[rough, clear, plain]), Some(2));
    assert_eq!(choose_config(&[rough, plain, plain]), Some(1));
}

#[test]
fn the_context_is_set_up_step_by_step() {
    let mut step = start_gl(800, 480);
    assert_eq!(step, GlStep::CreateDisplay);
    step = continue_gl(step, GlOutcome::Succeeded);
    assert_eq!(step, GlStep::FindConfigs);
    let configs = vec![config(None, 4), config(None, 0)];
    step = continue_gl(step, GlOutcome::Configs(configs));
    assert_eq!(step, GlStep::CreateContext(1, ContextApi::Gles2));
    step = continue_gl(step, failed("no gles"));
    assert_eq!(step, GlStep::CreateContext(1, ContextApi::Any));
    step = continue_gl(step, GlOutcome::Succeeded);
    assert_eq!(step, GlStep::CreateSurface(1));
    step = continue_gl(step, GlOutcome::Succeeded);
    assert_eq!(step, GlStep::MakeCurrent);
    step = continue_gl(step, GlOutcome::Succeeded);
    assert_eq!(step, GlStep::Ready);
    assert_eq!(continue_gl(step, GlOutcome::Succeeded), GlStep::Ready);
}

#[test]
fn an_empty_display_is_refused() {
    assert_eq!(
        message(start_gl(0, 0)),
        "Attempting to create window surface with an invalid width: 0"
    );
    assert_eq!(
        message(start_gl(1, 0)),
        "Attempting to create window surface with an invalid height: 0"
    );
}

#[test]
fn each_step_has_its_error() {
    let after = |step| message(continue_gl(step, failed("x")));
    assert_eq!(after(GlStep::CreateDisplay), "Error creating EGL display: x");
    assert_eq!(after(GlStep::FindConfigs), "Error locating EGL configs: x");
    assert_eq!(
        after(GlStep::CreateContext(0, ContextApi::Any)),
        "Error creating EGL context: x"
    );
    assert_eq!(after(GlStep::CreateSurface(0)), "Error creating EGL window surface: x");
    assert_eq!(
        after(GlStep::MakeCurrent),
        "FemtoVG Renderer: Failed to make newly created OpenGL context current: x"
    );
    assert_eq!(
        message(continue_gl(GlStep::FindConfigs, GlOutcome::Configs(vec![]))),
        "Unable to find suitable GL config"
    );
    let err = "x".to_string();
    assert_eq!(
        GlError::EnsureCurrent(err.clone()).message(),
        "FemtoVG: Error making context current: x"
    );
    assert_eq!(GlError::SwapBuffers(err).message(), "FemtoVG: Error swapping buffers: x");
}
