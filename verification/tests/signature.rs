use ts_endpoint_generator::signature::{
    parse_param, parse_params, parse_signature, render_definitions, render_names, ParamOutcome,
    ParsedParam,
};

fn param(name: &str, annotation: &str) -> ParsedParam {
    ParsedParam { name: name.to_string(), annotation: annotation.to_string() }
}

#[test]
fn entry_with_name_and_type_is_parsed() {
    assert_eq!(parse_param("a: number"), ParamOutcome::Parsed(param("a", "number")));
    assert_eq!(parse_param("a:number"), ParamOutcome::Parsed(param("a", "number")));
    assert_eq!(parse_param(" a  :  number "), ParamOutcome::Parsed(param("a", "number")));
}

#[test]
fn entry_without_colon_is_dropped() {
    assert_eq!(parse_param("a"), ParamOutcome::Dropped);
    assert_eq!(parse_param(""), ParamOutcome::Dropped);
    assert_eq!(parse_param("a number"), ParamOutcome::Dropped);
}

#[test]
fn entry_with_an_empty_side_is_dropped() {
    assert_eq!(parse_param("a:"), ParamOutcome::Dropped);
    assert_eq!(parse_param("a:  "), ParamOutcome::Dropped);
    assert_eq!(parse_param(": number"), ParamOutcome::Dropped);
    assert_eq!(parse_param(" : "), ParamOutcome::Dropped);
    assert_eq!(parse_param(":"), ParamOutcome::Dropped);
}

#[test]
fn entry_is_cut_at_its_first_colon() {
    assert_eq!(parse_param("a: b: c"), ParamOutcome::Parsed(param("a", "b: c")));
    assert_eq!(parse_param("opts: { x: number }"), ParamOutcome::Parsed(param("opts", "{ x: number }")));
    assert_eq!(parse_param("a::b"), ParamOutcome::Parsed(param("a", ":b")));
}

#[test]
fn parameters_keep_their_order() {
    let signature = parse_signature("a: number, b: string");
    assert_eq!(signature.params, vec![param("a", "number"), param("b", "string")]);
    assert_eq!(signature.definitions, "a: number, b: string");
    assert_eq!(signature.names, "a, b");
}

#[test]
fn empty_list_has_no_parameters() {
    let signature = parse_signature("");
    assert!(signature.params.is_empty());
    assert_eq!(signature.definitions, "");
    assert_eq!(signature.names, "");
    let blank = parse_signature("  \n ");
    assert!(blank.params.is_empty());
    assert_eq!(blank.definitions, "");
    assert_eq!(blank.names, "");
}

#[test]
fn single_parameter_has_no_separator() {
    let signature = parse_signature("id: string");
    assert_eq!(signature.definitions, "id: string");
    assert_eq!(signature.names, "id");
}

#[test]
fn spacing_is_normalised() {
    let signature = parse_signature("  a :number ,b:  string  ");
    assert_eq!(signature.definitions, "a: number, b: string");
    assert_eq!(signature.names, "a, b");
}

#[test]
fn empty_entries_are_dropped() {
    let signature = parse_signature("a: number,, b: string,");
    assert_eq!(signature.definitions, "a: number, b: string");
    assert_eq!(signature.names, "a, b");
    assert!(parse_params(",").is_empty());
    assert!(parse_params(" , ,").is_empty());
}

#[test]
fn malformed_entries_are_dropped() {
    let signature = parse_signature("a, b: string, c:, : d, e: f");
    assert_eq!(signature.params, vec![param("b", "string"), param("e", "f")]);
    assert_eq!(signature.definitions, "b: string, e: f");
    assert_eq!(signature.names, "b, e");
}

#[test]
fn commas_inside_types_still_split() {
    let signature = parse_signature("items: Array<string, number>, n: number");
    assert_eq!(signature.params, vec![param("items", "Array<string"), param("n", "number")]);
    assert_eq!(signature.definitions, "items: Array<string, n: number");
    assert_eq!(signature.names, "items, n");
}

#[test]
fn repeated_names_are_kept() {
    let signature = parse_signature("a: number, a: string");
    assert_eq!(signature.definitions, "a: number, a: string");
    assert_eq!(signature.names, "a, a");
}

#[test]
fn lists_are_rendered_from_parameters() {
    let params = vec![param("x", "number"), param("y", "Map<K"), param("z", "boolean")];
    assert_eq!(render_definitions(&params), "x: number, y: Map<K, z: boolean");
    assert_eq!(render_names(&params), "x, y, z");
    assert_eq!(render_definitions(&Vec::new()), "");
    assert_eq!(render_names(&Vec::new()), "");
}
