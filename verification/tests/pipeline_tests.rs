use movie_wallpaper::commands::{
    extract_args, extractor_program, geometry_string, identify_args, imaging_program,
    montage_args, montage_file_name, preprocess_args,
};
use movie_wallpaper::layout::{FrameSet, LayoutCalculator};
use movie_wallpaper::pipeline::{
    Action, FailureReason, Orchestrator, PipelineConfig, PipelineState, Stage,
};
use movie_wallpaper::resolution::{Resolution, ResolutionSet};

fn config(input: bool, skip: bool, exists: bool, resolutions: &str) -> PipelineConfig {
    PipelineConfig {
        extract_requested: input,
        skip_preprocess: skip,
        preprocessed_exists: exists,
        resolutions: ResolutionSet::parse(resolutions).unwrap(),
    }
}

// The full happy path: extract, preprocess, discover, compose, done.
#[test]
fn happy_path_reaches_done() {
    let mut orch = Orchestrator::new(config(true, false, false, "1920x1080,2560x1440"));
    assert_eq!(orch.state, PipelineState::Idle);
    assert_eq!(orch.start(), Action::RunExtract);
    assert_eq!(orch.state, PipelineState::Extracting);
    assert_eq!(orch.on_extract_finished(true), Action::RunPreprocess);
    assert_eq!(orch.state, PipelineState::Preprocessing);
    assert_eq!(orch.on_preprocess_finished(0), Action::RunDiscovery);
    assert_eq!(orch.state, PipelineState::Discovering);
    let frames = FrameSet { count: 12, frame_width: 960, frame_height: 540 };
    assert_eq!(orch.on_discovery_finished(Some(frames)), Action::RunCompositions);
    assert_eq!(orch.state, PipelineState::Composing);
    let jobs = orch.plan_compositions();
    assert_eq!(jobs.len(), 2);
    assert!(jobs.iter().all(|j| j.is_ok()));
    assert_eq!(orch.on_compositions_finished(0), Action::Halt);
    assert_eq!(orch.state, PipelineState::Done);
}

// Extraction failure is fatal and names its stage.
#[test]
fn extraction_failure_halts_run() {
    let mut orch = Orchestrator::new(config(true, false, false, "1920x1080"));
    orch.start();
    assert_eq!(orch.on_extract_finished(false), Action::Halt);
    assert_eq!(
        orch.state,
        PipelineState::Failed { stage: Stage::Extraction, reason: FailureReason::ExternalTool }
    );
}

// Without a source video the run starts at preprocessing.
#[test]
fn no_input_skips_extraction() {
    let mut orch = Orchestrator::new(config(false, false, false, "1920x1080"));
    assert_eq!(orch.start(), Action::RunPreprocess);
    assert_eq!(orch.state, PipelineState::Preprocessing);
}

// The reuse policy skips preprocessing only when asked for and when
// the previous output is actually there.
#[test]
fn skip_policy_requires_flag_and_directory() {
    let mut orch = Orchestrator::new(config(false, true, true, "1920x1080"));
    assert_eq!(orch.start(), Action::RunDiscovery);

    let mut orch = Orchestrator::new(config(false, true, false, "1920x1080"));
    assert_eq!(orch.start(), Action::RunPreprocess);

    let mut orch = Orchestrator::new(config(false, false, true, "1920x1080"));
    assert_eq!(orch.start(), Action::RunPreprocess);
}

// An unreadable frames directory is a fatal I/O failure.
#[test]
fn discovery_io_failure_halts_run() {
    let mut orch = Orchestrator::new(config(false, true, true, "1920x1080"));
    orch.start();
    assert_eq!(orch.on_discovery_finished(None), Action::Halt);
    assert_eq!(
        orch.state,
        PipelineState::Failed { stage: Stage::Discovery, reason: FailureReason::Io }
    );
}

// Zero discovered frames is a configuration failure, caught before
// any layout division.
#[test]
fn discovery_zero_frames_halts_run() {
    let mut orch = Orchestrator::new(config(false, true, true, "1920x1080"));
    orch.start();
    let frames = FrameSet { count: 0, frame_width: 960, frame_height: 540 };
    assert_eq!(orch.on_discovery_finished(Some(frames)), Action::Halt);
    assert_eq!(
        orch.state,
        PipelineState::Failed { stage: Stage::Discovery, reason: FailureReason::InvalidConfig }
    );
}

// One uncomputable layout gets its error in place; its siblings still
// get their jobs.
#[test]
fn per_item_layout_failure_spares_siblings() {
    let mut orch = Orchestrator::new(config(false, true, true, "1920x1080,80000x2,2560x1440"));
    orch.start();
    let frames = FrameSet { count: 12, frame_width: 960, frame_height: 540 };
    orch.on_discovery_finished(Some(frames));
    let jobs = orch.plan_compositions();
    assert_eq!(jobs.len(), 3);
    assert!(jobs[0].is_ok());
    assert!(jobs[1].is_err());
    assert!(jobs[2].is_ok());
    // item failures never fail the run
    assert_eq!(orch.on_compositions_finished(1), Action::Halt);
    assert_eq!(orch.state, PipelineState::Done);
    assert_eq!(orch.failed_composition_items, 1);
}

// Two composition jobs run concurrently and write distinctly named
// files, so they cannot interfere.
#[test]
fn concurrent_compositions_get_distinct_files() {
    let mut orch = Orchestrator::new(config(false, true, true, "1920x1080,3840x2160"));
    orch.start();
    let frames = FrameSet { count: 12, frame_width: 1920, frame_height: 1080 };
    orch.on_discovery_finished(Some(frames));
    let jobs = orch.plan_compositions();
    let (left, right) = rayon::join(
        || {
            let j = jobs[0].as_ref().unwrap();
            (j.output_name.clone(), montage_args(&j.layout, &j.output_name))
        },
        || {
            let j = jobs[1].as_ref().unwrap();
            (j.output_name.clone(), montage_args(&j.layout, &j.output_name))
        },
    );
    assert_eq!(left.0, "montage-1920x1080.png");
    assert_eq!(right.0, "montage-3840x2160.png");
    assert_ne!(left.0, right.0);
    assert_ne!(left.1[12], right.1[12]);
}

// Discovery counts only names ending in ".png"; a bare ".png" has no
// stem and does not count.
#[test]
fn count_png_names_counts_only_png() {
    let names = vec![
        "000001.png".to_string(),
        "000002.PNG".to_string(),
        "notes.txt".to_string(),
        "a.b.png".to_string(),
        ".png".to_string(),
        "png".to_string(),
    ];
    assert_eq!(movie_wallpaper::pipeline::count_png_names(&names), 2);
}

#[test]
fn montage_file_name_embeds_resolution() {
    let name = montage_file_name(&Resolution { width: 2560, height: 1440 });
    assert_eq!(name, "montage-2560x1440.png");
}

#[test]
fn geometry_string_matches_layout() {
    let layout = LayoutCalculator::compute(1920, 1080, 12, 16, 9).unwrap();
    assert_eq!(geometry_string(&layout), "409x230+16+36");
}

#[test]
fn extract_command_matches_contract() {
    assert_eq!(extractor_program(), "ffmpeg");
    assert_eq!(
        extract_args("movie.mkv"),
        vec![
            "-i",
            "movie.mkv",
            "-vf",
            "select='gt(scene\\,0.33)'",
            "-vsync",
            "vfr",
            "%06d.png",
        ]
    );
}

#[test]
fn identify_command_matches_contract() {
    assert_eq!(imaging_program(), "magick");
    assert_eq!(
        identify_args("000001.png"),
        vec!["identify", "-ping", "-format", "%[w]x%[h]", "000001.png"]
    );
}

#[test]
fn preprocess_command_matches_contract() {
    let args = preprocess_args("frames/000001.png", "000001.png");
    assert_eq!(
        args,
        vec![
            "frames/000001.png",
            "-gamma",
            ".45455",
            "-despeckle",
            "-statistic",
            "Nonpeak",
            "1.75x1.75",
            "-wavelet-denoise",
            "18x0.06",
            "-adaptive-sharpen",
            "3",
            "+sigmoidal-contrast",
            "4,48%",
            "-filter",
            "Lanczos2Sharp",
            "-resize",
            "50%",
            "-unsharp",
            "0x2+1+0.04",
            "-linear-stretch",
            "0.3",
            "-modulate",
            "100x110",
            "-gamma",
            "2.2",
            "000001.png",
        ]
    );
}

#[test]
fn montage_command_matches_contract() {
    let layout = LayoutCalculator::compute(1920, 1080, 12, 16, 9).unwrap();
    let args = montage_args(&layout, "montage-1920x1080.png");
    assert_eq!(
        args,
        vec![
            "montage",
            "*.png",
            "-background",
            "#00000000",
            "-filter",
            "Lanczos2Sharp",
            "-unsharp",
            "0x3+1+0.01",
            "-geometry",
            "409x230+16+36",
            "-tile",
            "4",
            "montage-1920x1080.png",
        ]
    );
}
