use hw_inventory::command::{CommandOutcome, Step, Tool};
use hw_inventory::error::PlatformError;
use hw_inventory::storage::{
    classified, get_storage_info, parse_device, parse_lsblk, parse_nvme_list, parse_smartctl,
    probe_of, scan_devices, BlockDevice, StorageScan, StorageSpec, StorageTechnology,
};

fn chars(s: &str) -> Vec<char> {
    s.chars().collect()
}

fn printed(stdout: &str) -> CommandOutcome {
    CommandOutcome::Exited { success: true, stdout: stdout.to_string() }
}

fn failed(stdout: &str) -> CommandOutcome {
    CommandOutcome::Exited { success: false, stdout: stdout.to_string() }
}

fn not_started() -> CommandOutcome {
    CommandOutcome::NotStarted("No such file or directory (os error 2)".to_string())
}

fn device(name: &str, size: u64, transport: Option<&str>) -> BlockDevice {
    BlockDevice { name: name.to_string(), size, transport: transport.map(|t| t.to_string()) }
}

fn no_storage() -> PlatformError {
    PlatformError::CommandFailed("Could not determine storage size".to_string())
}

/// Runs the detector, answering `lsblk` with `lsblk` and each probe with the
/// next of `probes`; gives the end and the tools asked for.
fn detect(
    lsblk: CommandOutcome,
    probes: Vec<CommandOutcome>,
) -> (Result<StorageSpec, PlatformError>, Vec<Tool>) {
    let mut asked: Vec<Tool> = Vec::new();
    let mut probes = probes.into_iter();
    let mut lsblk = Some(lsblk);
    let mut step = get_storage_info("linux");
    loop {
        match step {
            Step::Run(tool, scan) => {
                let outcome = match tool {
                    Tool::Lsblk => lsblk.take().expect("lsblk is asked for once"),
                    Tool::NvmeList | Tool::Smartctl(_) => {
                        probes.next().expect("a probe more than expected")
                    }
                    _ => panic!("the storage detector asked for {:?}", tool),
                };
                asked.push(tool);
                step = scan.advance(outcome);
            }
            Step::Done(found) => {
                assert!(probes.next().is_none(), "a probe fewer than expected");
                return (Ok(found), asked);
            }
            Step::Failed(e) => return (Err(e), asked),
        }
    }
}

fn found(size_bytes: u64, technology: StorageTechnology) -> Result<StorageSpec, PlatformError> {
    Ok(StorageSpec { size_bytes, technology })
}

const NVME_LIST_GEN4: &str = "Node          SN        Model                 Namespace Usage\n\
/dev/nvme0n1  S4EWNX0   Samsung SSD 980 PRO 1TB PCIe 4.0 NVMe 1  1.00 TB\n";

#[test]
fn the_largest_device_and_its_nvme_generation_are_found() {
    let table = "NAME TYPE SIZE TRAN\n\
                 sda sata 500000000000 sata\n\
                 nvme0n1 disk 1000000000000 nvme\n";
    let (result, asked) =
        detect(printed(table), vec![printed("Device Model: WDC\n"), printed(NVME_LIST_GEN4)]);
    assert_eq!(result, found(1000000000000, StorageTechnology::NvmeGen4));
    assert_eq!(asked, vec![Tool::Lsblk, Tool::Smartctl("sda".to_string()), Tool::NvmeList]);
}

#[test]
fn the_largest_device_is_found_in_a_table_of_two_lines() {
    let table = "sda sata 500000000000 sata\nnvme0n1 disk 1000000000000 nvme";
    let (result, asked) = detect(printed(table), vec![printed("Gen: PCIe 4.0 x4")]);
    assert_eq!(result, found(1000000000000, StorageTechnology::NvmeGen4));
    assert_eq!(asked, vec![Tool::Lsblk, Tool::NvmeList]);
}

#[test]
fn rows_without_a_positive_size_fail_the_detection() {
    let table = "NAME TYPE SIZE TRAN\n\
                 sda disk 0 sata\n\
                 sdb disk 1.5T usb\n\
                 nvme0n1 disk -5 nvme\n\
                 loop0\n\
                 sr0 rom\n\
                 sdc disk\n";
    let (result, asked) = detect(printed(table), vec![]);
    assert_eq!(result, Err(no_storage()));
    assert_eq!(asked, vec![Tool::Lsblk]);
}

#[test]
fn a_table_without_rows_fails_the_detection() {
    assert_eq!(detect(printed("NAME TYPE SIZE TRAN\n"), vec![]).0, Err(no_storage()));
    assert_eq!(detect(printed(""), vec![]).0, Err(no_storage()));
}

#[test]
fn the_header_line_is_not_a_device() {
    let (result, _) = detect(printed("sda disk 100 usb\n"), vec![]);
    assert_eq!(result, Err(no_storage()));
    let (result, _) = detect(printed("sda disk 100 usb\nsdb disk 7 usb\n"), vec![]);
    assert_eq!(result, found(7, StorageTechnology::Unknown));
}

#[test]
fn of_two_devices_of_one_size_the_earlier_counts() {
    let table = "NAME TYPE SIZE TRAN\n\
                 sda disk 1000 sata\n\
                 nvme0n1 disk 1000 nvme\n";
    let (result, asked) = detect(printed(table), vec![printed("Solid State Device\n")]);
    assert_eq!(result, found(1000, StorageTechnology::SataSsd));
    assert_eq!(asked, vec![Tool::Lsblk, Tool::Smartctl("sda".to_string())]);
}

#[test]
fn a_smaller_device_is_not_probed() {
    let table = "NAME TYPE SIZE TRAN\n\
                 nvme0n1 disk 2000 nvme\n\
                 sda disk 1000 sata\n\
                 nvme1n1 disk 1999 nvme\n";
    let (result, asked) = detect(printed(table), vec![printed("PCIe 3.0 x4")]);
    assert_eq!(result, found(2000, StorageTechnology::NvmeGen3));
    assert_eq!(asked, vec![Tool::Lsblk, Tool::NvmeList]);
}

#[test]
fn nvme_generations_are_told_apart() {
    let table = "NAME TYPE SIZE TRAN\nnvme0n1 disk 512 nvme\n";
    assert_eq!(
        detect(printed(table), vec![printed("PCIe 4.0")]).0,
        found(512, StorageTechnology::NvmeGen4)
    );
    assert_eq!(
        detect(printed(table), vec![printed("PCIe 3.0 and PCIe 4.0")]).0,
        found(512, StorageTechnology::NvmeGen4)
    );
    assert_eq!(
        detect(printed(table), vec![printed("PCIe 3.0")]).0,
        found(512, StorageTechnology::NvmeGen3)
    );
    assert_eq!(
        detect(printed(table), vec![printed("PCIe 5.0")]).0,
        found(512, StorageTechnology::Nvme)
    );
    assert_eq!(detect(printed(table), vec![printed("")]).0, found(512, StorageTechnology::Nvme));
}

#[test]
fn sata_drives_are_told_apart() {
    let table = "NAME TYPE SIZE TRAN\nsda disk 4096 sata\n";
    let ssd = "Device Model:     Samsung SSD 860\nRotation Rate:    Solid State Device\n";
    let hdd = "Device Model:     ST2000DM008\nRotation Rate:    7200 rpm\n";
    let (result, asked) = detect(printed(table), vec![printed(ssd)]);
    assert_eq!(result, found(4096, StorageTechnology::SataSsd));
    assert_eq!(asked, vec![Tool::Lsblk, Tool::Smartctl("sda".to_string())]);
    assert_eq!(detect(printed(table), vec![printed(hdd)]).0, found(4096, StorageTechnology::SataHdd));
    assert_eq!(detect(printed(table), vec![printed("")]).0, found(4096, StorageTechnology::SataHdd));
}

#[test]
fn a_probe_that_fails_leaves_the_kind_as_it_was() {
    let table = "NAME TYPE SIZE TRAN\nnvme0n1 disk 512 nvme\n";
    assert_eq!(detect(printed(table), vec![not_started()]).0, found(512, StorageTechnology::Unknown));
    assert_eq!(
        detect(printed(table), vec![failed("PCIe 4.0")]).0,
        found(512, StorageTechnology::Unknown)
    );
    let table = "NAME TYPE SIZE TRAN\nsda disk 100 sata\nnvme0n1 disk 512 nvme\nsdb disk 600 sata\n";
    let (result, asked) =
        detect(printed(table), vec![printed("7200 rpm"), not_started(), failed("Solid State Device")]);
    assert_eq!(result, found(600, StorageTechnology::SataHdd));
    assert_eq!(
        asked,
        vec![
            Tool::Lsblk,
            Tool::Smartctl("sda".to_string()),
            Tool::NvmeList,
            Tool::Smartctl("sdb".to_string())
        ]
    );
}

#[test]
fn another_transport_leaves_the_kind_as_it_was() {
    let table = "NAME TYPE SIZE TRAN\nsdb disk 64000000000 usb\nmmcblk0 disk 128000000000\n";
    let (result, asked) = detect(printed(table), vec![]);
    assert_eq!(result, found(128000000000, StorageTechnology::Unknown));
    assert_eq!(asked, vec![Tool::Lsblk]);
    let table = "NAME TYPE SIZE TRAN\nsda disk 100 sata\nsdb disk 200 usb\n";
    let (result, _) = detect(printed(table), vec![printed("Solid State Device")]);
    assert_eq!(result, found(200, StorageTechnology::SataSsd));
}

#[test]
fn a_device_named_nvme_is_probed_as_nvme_whatever_its_transport() {
    let table = "NAME TYPE SIZE TRAN\nnvme0n1 disk 100 sata\n";
    let (result, asked) = detect(printed(table), vec![printed("Solid State Device PCIe 3.0")]);
    assert_eq!(result, found(100, StorageTechnology::NvmeGen3));
    assert_eq!(asked, vec![Tool::Lsblk, Tool::NvmeList]);
}

#[test]
fn lsblk_that_did_not_start_fails_the_detection() {
    let (result, asked) = detect(not_started(), vec![]);
    assert_eq!(
        result,
        Err(PlatformError::CommandFailed(
            "Failed to execute lsblk: No such file or directory (os error 2)".to_string()
        ))
    );
    assert_eq!(asked, vec![Tool::Lsblk]);
}

#[test]
fn lsblk_that_failed_fails_the_detection() {
    let (result, _) = detect(failed("NAME TYPE SIZE TRAN\nsda disk 100 usb\n"), vec![]);
    assert_eq!(result, Err(PlatformError::CommandFailed("lsblk command failed".to_string())));
}

#[test]
fn storage_detection_needs_linux() {
    assert_eq!(
        get_storage_info("macos"),
        Step::Failed(PlatformError::Unsupported(
            "This application only supports Linux".to_string()
        ))
    );
    assert_eq!(get_storage_info("linux"), Step::Run(Tool::Lsblk, StorageScan::Listing));
}

#[test]
fn parse_lsblk_reads_name_size_and_transport() {
    let table = "NAME    TYPE          SIZE TRAN\r\n\
                 sda     disk  500107862016 sata\r\n\
                 \r\n\
                 sr0     rom     1073741312\r\n\
                 bad     disk          12G usb extra\r\n\
                 short   disk\r\n\
                 nvme0n1 disk 1000204886016 nvme";
    assert_eq!(
        parse_lsblk(table),
        vec![
            device("sda", 500107862016, Some("sata")),
            device("sr0", 1073741312, None),
            device("bad", 0, Some("usb")),
            device("nvme0n1", 1000204886016, Some("nvme")),
        ]
    );
    assert_eq!(parse_lsblk(""), Vec::new());
    assert_eq!(parse_lsblk("only a header"), Vec::new());
    assert_eq!(parse_device(&chars("  a  b  +7  ")), Some(device("a", 7, None)));
    assert_eq!(parse_device(&chars("a b 18446744073709551615 c")),
        Some(device("a", u64::MAX, Some("c"))));
    assert_eq!(parse_device(&chars("a b 18446744073709551616 c")), Some(device("a", 0, Some("c"))));
    assert_eq!(parse_device(&chars("a b")), None);
}

#[test]
fn probe_of_chooses_the_tool() {
    assert_eq!(probe_of(&device("nvme0n1", 1, Some("nvme"))), Some(Tool::NvmeList));
    assert_eq!(probe_of(&device("nvme", 1, None)), Some(Tool::NvmeList));
    assert_eq!(probe_of(&device("sda", 1, Some("sata"))), Some(Tool::Smartctl("sda".to_string())));
    assert_eq!(probe_of(&device("sda", 1, Some("SATA"))), None);
    assert_eq!(probe_of(&device("sda", 1, Some("usb"))), None);
    assert_eq!(probe_of(&device("sda", 1, None)), None);
    assert_eq!(probe_of(&device("xnvme0", 1, None)), None);
}

#[test]
fn each_probe_has_its_parser() {
    assert_eq!(parse_nvme_list("Samsung 980 PRO PCIe 4.0 NVMe"), StorageTechnology::NvmeGen4);
    assert_eq!(parse_nvme_list("Samsung 970 EVO PCIe 3.0 NVMe"), StorageTechnology::NvmeGen3);
    assert_eq!(parse_nvme_list("PCIe 3.0\nPCIe 4.0\n"), StorageTechnology::NvmeGen4);
    assert_eq!(parse_nvme_list("pcie 4.0"), StorageTechnology::Nvme);
    assert_eq!(parse_nvme_list(""), StorageTechnology::Nvme);
    assert_eq!(parse_smartctl("Rotation Rate: Solid State Device"), StorageTechnology::SataSsd);
    assert_eq!(parse_smartctl("Rotation Rate: 5400 rpm"), StorageTechnology::SataHdd);
    assert_eq!(parse_smartctl("solid state device"), StorageTechnology::SataHdd);
    assert_eq!(parse_smartctl(""), StorageTechnology::SataHdd);
}

#[test]
fn classified_reads_the_probe() {
    let nvme = device("nvme0n1", 1, None);
    let sata = device("sda", 1, Some("sata"));
    let prior = StorageTechnology::SataHdd;
    assert_eq!(classified(prior, &nvme, printed("PCIe 4.0")), StorageTechnology::NvmeGen4);
    assert_eq!(classified(prior, &nvme, printed("nothing")), StorageTechnology::Nvme);
    assert_eq!(classified(prior, &sata, printed("Solid State Device")), StorageTechnology::SataSsd);
    assert_eq!(classified(prior, &sata, printed("PCIe 4.0")), StorageTechnology::SataHdd);
    assert_eq!(classified(StorageTechnology::Nvme, &sata, not_started()), StorageTechnology::Nvme);
    assert_eq!(classified(StorageTechnology::Nvme, &sata, failed("x")), StorageTechnology::Nvme);
}

#[test]
fn scan_devices_waits_at_a_larger_device_with_a_probe() {
    let list = vec![
        device("sdb", 10, Some("usb")),
        device("sda", 5, Some("sata")),
        device("sdc", 20, Some("sata")),
    ];
    assert_eq!(
        scan_devices(list.clone(), 0, 0, StorageTechnology::Unknown),
        Step::Run(
            Tool::Smartctl("sdc".to_string()),
            StorageScan::Probing {
                devices: list.clone(),
                position: 2,
                technology: StorageTechnology::Unknown
            }
        )
    );
    assert_eq!(
        scan_devices(list.clone(), 0, 20, StorageTechnology::Nvme),
        Step::Done(StorageSpec { size_bytes: 20, technology: StorageTechnology::Nvme })
    );
    assert_eq!(scan_devices(list, 3, 0, StorageTechnology::Nvme), Step::Failed(no_storage()));
}

#[test]
fn a_label_names_its_kind() {
    let kinds = vec![
        StorageTechnology::NvmeGen4,
        StorageTechnology::NvmeGen3,
        StorageTechnology::Nvme,
        StorageTechnology::SataSsd,
        StorageTechnology::SataHdd,
        StorageTechnology::Unknown,
    ];
    for kind in kinds {
        assert_eq!(StorageTechnology::from_label(&kind.label()), Some(kind));
    }
    assert_eq!(StorageTechnology::from_label("NVMeGen5"), None);
    assert_eq!(StorageTechnology::from_label("nvme"), None);
    assert_eq!(StorageTechnology::from_label("SATA"), None);
    assert_eq!(StorageTechnology::from_label(""), None);
}

#[test]
fn each_kind_has_its_label() {
    assert_eq!(StorageTechnology::NvmeGen4.label(), "NVMeGen4");
    assert_eq!(StorageTechnology::NvmeGen3.label(), "NVMeGen3");
    assert_eq!(StorageTechnology::Nvme.label(), "NVMe");
    assert_eq!(StorageTechnology::SataSsd.label(), "SATA SSD");
    assert_eq!(StorageTechnology::SataHdd.label(), "SATA HDD");
    assert_eq!(StorageTechnology::Unknown.label(), "Unknown");
}
