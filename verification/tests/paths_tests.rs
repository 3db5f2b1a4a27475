use ocr_batch::paths::FilePath;

fn rel(components: &[&str]) -> FilePath {
    FilePath {
        absolute: false,
        components: components.iter().map(|c| c.to_string()).collect(),
    }
}

fn abs(components: &[&str]) -> FilePath {
    FilePath {
        absolute: true,
        components: components.iter().map(|c| c.to_string()).collect(),
    }
}

#[test]
fn output_path_goes_to_removed_ocr_sibling() {
    let input = abs(&["home", "docs", "report.pdf"]);
    let output = input.output_path().unwrap();
    assert_eq!(output, abs(&["home", "docs", "removed-ocr", "report.pdf"]));
}

#[test]
fn output_path_keeps_relative_paths_relative() {
    let input = rel(&["scans", "a.pdf"]);
    let output = input.output_path().unwrap();
    assert_eq!(output, rel(&["scans", "removed-ocr", "a.pdf"]));
}

#[test]
fn output_path_of_bare_file_name() {
    let input = rel(&["report.pdf"]);
    let output = input.output_path().unwrap();
    assert_eq!(output, rel(&["removed-ocr", "report.pdf"]));
}

#[test]
fn output_path_missing_name_component_is_an_error() {
    let input = abs(&[]);
    assert!(input.output_path().is_none());
    let input = rel(&[]);
    assert!(input.output_path().is_none());
}

#[test]
fn clone_keeps_the_path() {
    let input = abs(&["a", "b.pdf"]);
    assert_eq!(input.clone(), input);
}
