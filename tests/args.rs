use aeg::args::Opt;

fn params(devices_number: u32, chains_number: u32, chain_length: u32, chain_width: u32, devices_width: u32, devices_length: u32) -> Opt {
    Opt {
        devices_number,
        chains_number,
        chain_length,
        chain_width,
        devices_width,
        devices_length,
        image: String::new(),
        coordinator_image: String::new(),
        tick: String::new(),
        namespace: String::new(),
        includes: Vec::new(),
        memory_controller: String::new(),
        configuration_version: String::new(),
    }
}

#[test]
fn valid_parameters() {
    let opt = params(1, 1, 1, 1, 1, 1);
    assert!(opt.is_valid());
    assert!(opt.validation_errors().is_empty());
    assert!(params(5, 3, 2, 3, 9, 4).is_valid());
}

#[test]
fn every_violation_is_reported() {
    let opt = params(0, 0, 0, 0, 0, 0);
    assert!(!opt.is_valid());
    assert_eq!(
        opt.validation_errors(),
        vec![
            "Invalid argument: --devices-number must be at least 1",
            "Invalid argument: --chains-number must be at least 1",
            "Invalid argument: --chain-length must be at least 1",
            "Invalid argument: --chain-width must be in between 1 and --chains-number(=0)",
            "Invalid argument: --devices-width must be at least 1",
            "Invalid argument: --devices-length must be at least 1",
        ]
    );
}

#[test]
fn chain_width_above_chains_number() {
    let opt = params(1, 2, 1, 3, 1, 1);
    assert!(!opt.is_valid());
    assert_eq!(
        opt.validation_errors(),
        vec!["Invalid argument: --chain-width must be in between 1 and --chains-number(=2)"]
    );
}

#[test]
fn single_violation() {
    let opt = params(1, 1, 1, 1, 0, 1);
    assert!(!opt.is_valid());
    assert_eq!(opt.validation_errors(), vec!["Invalid argument: --devices-width must be at least 1"]);
}
