use kernel_service::metrics::{get_memory_usage, get_traffic_data};

fn expected(output: &str) -> String {
    let lines: Vec<&str> = output.lines().collect();
    if lines.len() < 2 {
        return "0".to_string();
    }
    let memory = lines[1].trim();
    if memory.is_empty() {
        "0".to_string()
    } else {
        (memory.parse::<u64>().unwrap_or(0) / 1024 / 1024).to_string()
    }
}

#[test]
fn the_working_set_is_read_from_the_second_line() {
    assert_eq!(get_memory_usage("WorkingSetSize  \r\r\n52428800        \r\r\n\r\r\n"), "50");
    assert_eq!(get_memory_usage("WorkingSetSize\n1048576\n"), "1");
    assert_eq!(get_memory_usage("WorkingSetSize\n1048575\n"), "0");
    assert_eq!(get_memory_usage("WorkingSetSize\n  3145728"), "3");
    assert_eq!(get_memory_usage("h\n+2097152\nrest"), "2");
    assert_eq!(get_memory_usage("h\n18446744073709551615"), "17592186044415");
}

#[test]
fn output_without_a_figure_gives_zero() {
    for output in [
        "",
        "WorkingSetSize",
        "WorkingSetSize\n",
        "WorkingSetSize\n\n",
        "WorkingSetSize\n   \r\n",
        "h\nabc",
        "h\n12a",
        "h\n-5",
        "h\n+",
        "h\n1 2",
        "h\n18446744073709551616",
        "h\n99999999999999999999999999",
        "\n",
        "\n\n5",
    ] {
        assert_eq!(get_memory_usage(output), "0", "for {:?}", output);
    }
}

#[test]
fn the_reading_agrees_with_the_standard_library() {
    for output in [
        "",
        "a",
        "a\n",
        "a\nb",
        "a\r\n1048576\r\n",
        "a\n\u{3000}4194304\u{a0}\n",
        "a\n\t 10485760 \u{2003}",
        "a\n007340032\nc\nd",
        "\n8388608",
        "a\n+9437184",
        "a\n++9437184",
        "a\n９437184",
        "a\r5242880\n6291456",
        "无进程\n",
        "No Instance(s) Available.\r\r\n",
    ] {
        assert_eq!(get_memory_usage(output), expected(output), "for {:?}", output);
    }
}

#[test]
fn the_traffic_figures_are_zero() {
    assert_eq!(get_traffic_data(), "{\"download\":0,\"upload\":0}");
}
