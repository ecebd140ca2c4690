use gb::platform::chars_of;
use gb::platform::is_white_space;
use gb::platform::product_version;

#[test]
fn version_is_read_from_its_line() {
    let output = "ProductName:\t\tmacOS\nProductVersion:\t\t13.4.1\nBuildVersion:\t\t22F82\n";
    assert_eq!(product_version(output).as_deref(), Some("13.4.1"));
}

#[test]
fn first_labelled_line_counts() {
    let output = "ProductVersion: 12.0\nProductVersion: 13.0\n";
    assert_eq!(product_version(output).as_deref(), Some("12.0"));
}

#[test]
fn label_must_start_the_line() {
    assert_eq!(product_version(" ProductVersion: 12.0\n"), None);
    assert_eq!(product_version("ProductName: macOS\nBuildVersion: 22F82"), None);
    assert_eq!(product_version(""), None);
    assert_eq!(product_version("productversion: 1"), None);
}

#[test]
fn value_is_trimmed() {
    assert_eq!(product_version("ProductVersion:14.2").as_deref(), Some("14.2"));
    assert_eq!(product_version("ProductVersion:  14.2 \t\r\nx").as_deref(), Some("14.2"));
    assert_eq!(product_version("ProductVersion:\u{a0}14.2\u{3000}").as_deref(), Some("14.2"));
    assert_eq!(product_version("ProductVersion:").as_deref(), Some(""));
    assert_eq!(product_version("a\nProductVersion: 1 2 \n").as_deref(), Some("1 2"));
}

#[test]
fn repeated_label_is_dropped() {
    assert_eq!(
        product_version("ProductVersion:ProductVersion:ProductVersion: 9").as_deref(),
        Some("9")
    );
    assert_eq!(
        product_version("ProductVersion: ProductVersion: 9").as_deref(),
        Some("ProductVersion: 9")
    );
}

#[test]
fn version_agrees_with_std() {
    let outputs = [
        "ProductVersion: 10.15.7",
        "x\r\nProductVersion:\t11.1\r\ny",
        "ProductVersion:ProductVersion:  é 1 \n",
        "none",
    ];
    for output in outputs {
        let want = output
            .lines()
            .filter(|line| line.starts_with("ProductVersion:"))
            .next()
            .map(|line| line.trim_start_matches("ProductVersion:").trim().to_owned());
        assert_eq!(product_version(output), want);
    }
}

#[test]
fn white_space_is_what_std_says() {
    for n in 0u32..0x3100 {
        if let Some(c) = char::from_u32(n) {
            assert_eq!(is_white_space(c), c.is_whitespace(), "U+{:04X}", n);
        }
    }
}

#[test]
fn characters_come_one_by_one() {
    assert_eq!(chars_of("aé\n"), vec!['a', 'é', '\n']);
    assert_eq!(chars_of(""), Vec::<char>::new());
}
