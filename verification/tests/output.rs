use brain_massage::output::make_output_filename;

#[test]
fn output_name_strips_extension() {
    assert_eq!(make_output_filename("src/prog.bm", false), "src/prog");
    assert_eq!(make_output_filename("src/prog.bm", true), "src/prog.o");
}

#[test]
fn output_name_without_extension_is_a_out() {
    assert_eq!(make_output_filename("prog", false), "a.out");
    assert_eq!(make_output_filename("dir/prog", true), "dir/a.out");
}

#[test]
fn output_name_strips_only_last_extension() {
    assert_eq!(make_output_filename("a.b.c", false), "a.b");
}
