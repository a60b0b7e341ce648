use rvn::scanner::{latest_request, scan_entry, ScanAction};
use rvn::app::VenvMetadata;
use rvn::scanner::{
    find_python_lib_dir, get_installed_packages, package_label_of, parse_venv_config,
    parse_venv_metadata, total_size, LibEntry, CONFIG_FILE_NAME, LIB_DIR_NAME,
    SITE_PACKAGES_DIR_NAME,
};

/// The fields as the std string methods read them.
fn reference_fields(content: &str) -> (String, String, String) {
    let mut meta = (String::new(), String::new(), String::new());
    for line in content.lines() {
        if let Some((key, value)) = line.split_once('=') {
            match key.trim() {
                "version" => meta.0 = value.trim().to_string(),
                "executable" => meta.1 = value.trim().to_string(),
                "include-system-site-packages" => meta.2 = value.trim().to_string(),
                _ => {}
            }
        }
    }
    meta
}

fn fields(m: &VenvMetadata) -> (String, String, String) {
    (m.version.clone(), m.executable.clone(), m.include_system_packages.clone())
}

fn reference_packages(names: &[&str]) -> Vec<String> {
    let mut packages = Vec::new();
    for name in names {
        if name.ends_with(".dist-info") {
            let raw_name = &name[..name.len() - 10];
            if let Some((pkg_name, version)) = raw_name.rsplit_once('-') {
                packages.push(format!("{} == {}", pkg_name, version));
            } else {
                packages.push(raw_name.to_string());
            }
        }
    }
    packages.sort();
    packages
}

#[test]
fn parse_typical_config() {
    let cfg = "home = /usr/bin\ninclude-system-site-packages = false\nversion = 3.11.4\nexecutable = /usr/bin/python3.11\ncommand = /usr/bin/python3 -m venv /tmp/v\n";
    let m = parse_venv_config(cfg);
    assert_eq!(m.version, "3.11.4");
    assert_eq!(m.executable, "/usr/bin/python3.11");
    assert_eq!(m.include_system_packages, "false");
    assert!(m.packages.is_empty());
}

#[test]
fn parse_later_line_wins() {
    let m = parse_venv_config("version = 3.8\nversion = 3.12.1");
    assert_eq!(m.version, "3.12.1");
}

#[test]
fn parse_edge_cases_match_std() {
    let inputs = [
        "",
        "\n\n",
        "version",
        "version=",
        "  version  =  3.9 = x  \r\nexecutable=\t/bin/py\r\n",
        "version = 3.10\r",
        "=version\nversion\t= a b \u{a0}\n",
        "VERSION = 1\nversion = 2\n executable = e \n",
        "include-system-site-packages=true\ninclude-system-site-packages = false\n\n",
        "key = value\nversion: 3\n",
        "version = \u{2003}3.13\u{3000}",
    ];
    for input in inputs {
        assert_eq!(fields(&parse_venv_config(input)), reference_fields(input), "input {:?}", input);
    }
}

#[test]
fn metadata_needs_readable_config() {
    assert!(parse_venv_metadata(None, vec!["a == 1".to_string()]).is_none());
    let m = parse_venv_metadata(Some("version = 3.12".to_string()), vec!["a == 1".to_string()]).unwrap();
    assert_eq!(m.version, "3.12");
    assert_eq!(m.packages, vec!["a == 1".to_string()]);
}

#[test]
fn labels_of_dist_info_entries() {
    let label = |s: &str| package_label_of(s);
    assert_eq!(label("requests-2.31.0.dist-info").as_deref(), Some("requests == 2.31.0"));
    assert_eq!(label("typing_extensions-4.8.0.dist-info").as_deref(), Some("typing_extensions == 4.8.0"));
    assert_eq!(label("my-pkg-1.0.dist-info").as_deref(), Some("my-pkg == 1.0"));
    assert_eq!(label("noversion.dist-info").as_deref(), Some("noversion"));
    assert_eq!(label(".dist-info").as_deref(), Some(""));
    assert_eq!(label("requests").as_deref(), None);
    assert_eq!(label("requests-2.31.0.egg-info").as_deref(), None);
    assert_eq!(label("dist-info").as_deref(), None);
}

#[test]
fn installed_packages_sorted_like_std() {
    let names = [
        "requests-2.31.0.dist-info",
        "requests",
        "Flask-3.0.0.dist-info",
        "flask_cors-4.0.dist-info",
        "aiohttp-3.9.1.dist-info",
        "__pycache__",
        "zz-1.dist-info",
        "Äpfel-1.0.dist-info",
        "aiohttp-3.9.0.dist-info",
        "pip-23.2.dist-info",
        "pip-23.2.dist-info",
        "setuptools.dist-info",
    ];
    let owned: Vec<String> = names.iter().map(|s| s.to_string()).collect();
    assert_eq!(get_installed_packages(&owned), reference_packages(&names));
    assert!(get_installed_packages(&Vec::new()).is_empty());
}

#[test]
fn python_lib_dir_is_first_python_directory() {
    let e = |name: &str, is_dir: bool| LibEntry { name: name.to_string(), is_dir };
    let entries = vec![e("site.py", false), e("python3.11-notes", false), e("pythonic", true), e("python3.12", true)];
    assert_eq!(find_python_lib_dir(&entries), Some(2));
    assert_eq!(find_python_lib_dir(&vec![e("py3", true), e("Python3", true)]), None);
    assert_eq!(find_python_lib_dir(&Vec::new()), None);
}

#[test]
fn total_size_adds_lengths() {
    assert_eq!(total_size(&vec![]), 0);
    assert_eq!(total_size(&vec![10, 20, 4096]), 4126);
    assert_eq!(total_size(&vec![u64::MAX, 2]), 1);
}

#[test]
fn directory_names() {
    assert_eq!(CONFIG_FILE_NAME, "pyvenv.cfg");
    assert_eq!(LIB_DIR_NAME, "lib");
    assert_eq!(SITE_PACKAGES_DIR_NAME, "site-packages");
}

#[test]
fn scan_entry_decisions() {
    assert_eq!(scan_entry(false, true, true), ScanAction::Skip);
    assert_eq!(scan_entry(false, false, false), ScanAction::Skip);
    assert_eq!(scan_entry(true, true, true), ScanAction::RecordAndSkipContents);
    assert_eq!(scan_entry(true, true, false), ScanAction::Descend);
    assert_eq!(scan_entry(true, false, false), ScanAction::Descend);
    assert_eq!(scan_entry(true, false, true), ScanAction::Descend);
}

#[test]
fn latest_request_wins() {
    assert_eq!(latest_request("a", vec![]), "a");
    assert_eq!(latest_request("a", vec!["b", "c"]), "c");
}
