use ts_endpoint_generator::emitter::{render, FOOTER, HEADER};
use ts_endpoint_generator::registry::Registry;
use ts_endpoint_generator::signature::parse_signature;

#[test]
fn header_and_footer_are_fixed() {
    assert_eq!(HEADER, "import { ipcRenderer } from \"electron\";\n\nexport const api = {\n");
    assert_eq!(FOOTER, "};\n");
}

#[test]
fn empty_registry_renders_an_empty_object() {
    assert_eq!(
        render(&Registry::new()),
        "import { ipcRenderer } from \"electron\";\n\nexport const api = {\n};\n"
    );
}

#[test]
fn method_without_parameters_has_empty_lists() {
    let mut registry = Registry::new();
    assert!(registry.insert("Group", "close", &parse_signature(""), "Window").is_ok());
    let expected = "import { ipcRenderer } from \"electron\";\n\nexport const api = {\n  Group: {\n    close: async () => {\n      return await ipcRenderer.invoke(\"Group-close\", );\n    },\n  },\n};\n";
    assert_eq!(render(&registry), expected);
}

#[test]
fn parameters_are_declared_and_forwarded_in_order() {
    let mut registry = Registry::new();
    assert!(registry.insert("Math", "add", &parse_signature("a: number, b: string"), "Calc").is_ok());
    let out = render(&registry);
    assert!(out.contains("    add: async (a: number, b: string) => {\n"));
    assert!(out.contains("      return await ipcRenderer.invoke(\"Math-add\", a, b);\n"));
}

#[test]
fn groups_and_methods_are_rendered_in_registry_order() {
    let mut registry = Registry::new();
    assert!(registry.insert("Zeta", "b", &parse_signature("x: X"), "C").is_ok());
    assert!(registry.insert("Alpha", "only", &parse_signature(""), "C").is_ok());
    assert!(registry.insert("Zeta", "a", &parse_signature("y: Y, z: Z"), "D").is_ok());
    let expected = "import { ipcRenderer } from \"electron\";\n\nexport const api = {\n  Zeta: {\n    b: async (x: X) => {\n      return await ipcRenderer.invoke(\"Zeta-b\", x);\n    },\n    a: async (y: Y, z: Z) => {\n      return await ipcRenderer.invoke(\"Zeta-a\", y, z);\n    },\n  },\n  Alpha: {\n    only: async () => {\n      return await ipcRenderer.invoke(\"Alpha-only\", );\n    },\n  },\n};\n";
    assert_eq!(render(&registry), expected);
}

#[test]
fn rendering_twice_gives_the_same_text() {
    let mut registry = Registry::new();
    assert!(registry.insert("G", "m", &parse_signature("a: A"), "C").is_ok());
    assert_eq!(render(&registry), render(&registry));
}
