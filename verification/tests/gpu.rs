use hw_inventory::command::{CommandOutcome, Step, Tool};
use hw_inventory::error::PlatformError;
use hw_inventory::gpu::{
    get_gpu_info, model_of_line, parse_candidate, parse_lspci, parse_nvidia_smi, scan_candidates,
    GpuCandidate, GpuScan, GpuSpec,
};

fn chars(s: &str) -> Vec<char> {
    s.chars().collect()
}

fn printed(stdout: &str) -> CommandOutcome {
    CommandOutcome::Exited { success: true, stdout: stdout.to_string() }
}

fn failed(stdout: &str) -> CommandOutcome {
    CommandOutcome::Exited { success: false, stdout: stdout.to_string() }
}

fn models(names: &[&str]) -> Vec<GpuSpec> {
    names.iter().map(|n| GpuSpec { model: n.to_string() }).collect()
}

/// Runs the detector, answering `lspci` with `lspci` and each call of
/// `nvidia-smi` with the next of `probes`; gives the end and the tools asked for.
fn detect(
    lspci: CommandOutcome,
    probes: Vec<CommandOutcome>,
) -> (Result<Vec<GpuSpec>, PlatformError>, Vec<Tool>) {
    let mut asked: Vec<Tool> = Vec::new();
    let mut probes = probes.into_iter();
    let mut lspci = Some(lspci);
    let mut step = get_gpu_info("linux");
    loop {
        match step {
            Step::Run(tool, scan) => {
                let outcome = match tool {
                    Tool::Lspci => lspci.take().expect("lspci is asked for once"),
                    Tool::NvidiaSmi => probes.next().expect("a probe more than expected"),
                    _ => panic!("the GPU detector asked for {:?}", tool),
                };
                asked.push(tool);
                step = scan.advance(outcome);
            }
            Step::Done(found) => {
                assert!(probes.next().is_none(), "a probe fewer than expected");
                return (Ok(found), asked);
            }
            Step::Failed(e) => return (Err(e), asked),
        }
    }
}

const NVIDIA_LINE: &str =
    "01:00.0 VGA compatible controller: NVIDIA Corporation GA102 [GeForce RTX 3080] (rev a1)";
const INTEL_LINE: &str = "00:02.0 VGA compatible controller: Intel Corporation UHD Graphics";

#[test]
fn no_display_controller_gives_the_unknown_gpu() {
    let output = "00:00.0 Host bridge: Intel Corporation Device 9b61\n\
                  \tSubsystem: Lenovo Device 2292\n\
                  00:14.0 USB controller: Intel Corporation Comet Lake USB 3.1\n";
    let (found, asked) = detect(printed(output), vec![]);
    assert_eq!(found, Ok(models(&["Unknown GPU"])));
    assert_eq!(asked, vec![Tool::Lspci]);
}

#[test]
fn empty_lspci_output_gives_the_unknown_gpu() {
    let (found, asked) = detect(printed(""), vec![]);
    assert_eq!(found, Ok(models(&["Unknown GPU"])));
    assert_eq!(asked, vec![Tool::Lspci]);
}

#[test]
fn nvidia_card_takes_the_name_from_nvidia_smi() {
    let (found, asked) = detect(printed(NVIDIA_LINE), vec![printed("NVIDIA GeForce RTX 3080\n")]);
    assert_eq!(found, Ok(models(&["NVIDIA GeForce RTX 3080"])));
    assert_eq!(asked, vec![Tool::Lspci, Tool::NvidiaSmi]);
}

#[test]
fn nvidia_line_with_dots_takes_the_name_from_nvidia_smi() {
    let line = "01:00.0 VGA compatible controller: NVIDIA Corporation ...";
    let (found, _) = detect(printed(line), vec![printed("NVIDIA GeForce RTX 3080\n")]);
    assert_eq!(found, Ok(models(&["NVIDIA GeForce RTX 3080"])));
}

#[test]
fn other_card_takes_the_name_from_its_line() {
    let (found, asked) = detect(printed(INTEL_LINE), vec![]);
    assert_eq!(found, Ok(models(&["Intel Corporation UHD Graphics"])));
    assert_eq!(asked, vec![Tool::Lspci]);
}

#[test]
fn nvidia_card_falls_back_to_its_line_when_nvidia_smi_fails() {
    let expected = models(&["NVIDIA Corporation GA102 [GeForce RTX 3080] (rev a1)"]);
    let (found, _) = detect(printed(NVIDIA_LINE), vec![failed("NVIDIA GeForce RTX 3080\n")]);
    assert_eq!(found, Ok(expected.clone()));
    let not_started = CommandOutcome::NotStarted("No such file or directory".to_string());
    let (found, _) = detect(printed(NVIDIA_LINE), vec![not_started]);
    assert_eq!(found, Ok(expected.clone()));
    let (found, _) = detect(printed(NVIDIA_LINE), vec![printed(" \n\t\n")]);
    assert_eq!(found, Ok(expected.clone()));
    let (found, _) = detect(printed(NVIDIA_LINE), vec![printed("")]);
    assert_eq!(found, Ok(expected));
}

#[test]
fn the_models_come_in_the_order_of_the_lines() {
    let output = format!(
        "{}\n\tSubsystem: Lenovo: 22ab\n{}\n\tKernel driver in use: nvidia\n\
         02:00.0 3D controller: NVIDIA Corporation GM108M [GeForce 940MX] (rev a2)\n\
         03:00.0 Display controller: Advanced Micro Devices\n\
         04:00.0 3D controller: Some Vendor : Model X : rev 2\n",
        INTEL_LINE, NVIDIA_LINE
    );
    let (found, asked) =
        detect(printed(&output), vec![printed("  RTX 3080 \n"), failed("ignored")]);
    assert_eq!(
        found,
        Ok(models(&[
            "Intel Corporation UHD Graphics",
            "RTX 3080",
            "NVIDIA Corporation GM108M [GeForce 940MX] (rev a2)",
            "Some Vendor",
        ]))
    );
    assert_eq!(asked, vec![Tool::Lspci, Tool::NvidiaSmi, Tool::NvidiaSmi]);
}

#[test]
fn a_display_line_without_a_third_field_gives_the_unknown_gpu() {
    let (found, _) = detect(printed("VGA adapter\n"), vec![]);
    assert_eq!(found, Ok(models(&["Unknown GPU"])));
    let (found, _) = detect(printed("00:02.0 VGA\nVGA: one colon\n"), vec![]);
    assert_eq!(found, Ok(models(&["Unknown GPU", "Unknown GPU"])));
    let (found, _) = detect(printed("a:b: VGA \n"), vec![]);
    assert_eq!(found, Ok(models(&["VGA"])));
    let (found, _) = detect(printed("a:VGA:\n"), vec![]);
    assert_eq!(found, Ok(models(&[""])));
}

#[test]
fn multi_line_output_of_nvidia_smi_is_kept_whole() {
    let (found, _) = detect(printed(NVIDIA_LINE), vec![printed("NVIDIA A100\nNVIDIA A100\n")]);
    assert_eq!(found, Ok(models(&["NVIDIA A100\nNVIDIA A100"])));
}

#[test]
fn lspci_that_did_not_start_fails_the_detection() {
    let (found, asked) = detect(CommandOutcome::NotStarted("permission denied".to_string()), vec![]);
    assert_eq!(
        found,
        Err(PlatformError::CommandFailed(
            "Failed to execute lspci: permission denied".to_string()
        ))
    );
    assert_eq!(asked, vec![Tool::Lspci]);
}

#[test]
fn lspci_that_failed_fails_the_detection() {
    let (found, _) = detect(failed(INTEL_LINE), vec![]);
    assert_eq!(found, Err(PlatformError::CommandFailed("lspci command failed".to_string())));
}

#[test]
fn gpu_detection_needs_linux() {
    assert_eq!(
        get_gpu_info("windows"),
        Step::Failed(PlatformError::Unsupported(
            "This application only supports Linux".to_string()
        ))
    );
    assert_eq!(get_gpu_info("linux"), Step::Run(Tool::Lspci, GpuScan::Listing));
}

#[test]
fn parse_lspci_lists_the_display_controllers() {
    let output = format!("{}\n00:1f.3 Audio device: Intel\n{}\n", NVIDIA_LINE, INTEL_LINE);
    assert_eq!(
        parse_lspci(&output),
        vec![
            GpuCandidate {
                nvidia: true,
                lspci_model: "NVIDIA Corporation GA102 [GeForce RTX 3080] (rev a1)".to_string()
            },
            GpuCandidate {
                nvidia: false,
                lspci_model: "Intel Corporation UHD Graphics".to_string()
            },
        ]
    );
    assert_eq!(parse_lspci("nothing here"), Vec::new());
    assert_eq!(parse_candidate(&chars("00:1f.3 Audio device: Intel")), None);
    assert_eq!(
        parse_candidate(&chars("x:y: NVIDIA 3D controller")),
        Some(GpuCandidate { nvidia: true, lspci_model: "NVIDIA 3D controller".to_string() })
    );
    assert_eq!(model_of_line(&chars(" a : b :  c d  : e")), "c d");
    assert_eq!(model_of_line(&chars("a:b")), "Unknown GPU");
}

#[test]
fn parse_nvidia_smi_trims_and_refuses_blank_output() {
    assert_eq!(parse_nvidia_smi(printed("  Tesla T4\r\n")), Some("Tesla T4".to_string()));
    assert_eq!(parse_nvidia_smi(printed("   ")), None);
    assert_eq!(parse_nvidia_smi(failed("Tesla T4")), None);
    assert_eq!(parse_nvidia_smi(CommandOutcome::NotStarted("x".to_string())), None);
}

#[test]
fn scan_candidates_waits_at_the_first_nvidia_candidate() {
    let list = vec![
        GpuCandidate { nvidia: false, lspci_model: "A".to_string() },
        GpuCandidate { nvidia: true, lspci_model: "B".to_string() },
        GpuCandidate { nvidia: false, lspci_model: "C".to_string() },
    ];
    let step = scan_candidates(list.clone(), 0, Vec::new());
    assert_eq!(
        step,
        Step::Run(
            Tool::NvidiaSmi,
            GpuScan::Probing { candidates: list.clone(), position: 1, models: models(&["A"]) }
        )
    );
    assert_eq!(scan_candidates(list.clone(), 2, models(&["x"])), Step::Done(models(&["x", "C"])));
    assert_eq!(scan_candidates(list, 3, Vec::new()), Step::Done(models(&["Unknown GPU"])));
}
