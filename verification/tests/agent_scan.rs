use wakfu::agent::{
    tostring_templates, utf8_string, BootstrapMethodEntry, ClassAttribute, ClassMethod,
    CodeInstruction, LoadedClass, PoolConstant,
};

fn class(name: &str, code: Vec<CodeInstruction>, argument: usize) -> LoadedClass {
    LoadedClass {
        class_name: name.to_string(),
        constants: vec![
            PoolConstant::Utf8(b"toString".to_vec()),
            PoolConstant::Utf8(b"Item[id=\x01]".to_vec()),
            PoolConstant::String(1),
            PoolConstant::InvokeDynamic { bootstrap_method_attr_index: 0 },
            PoolConstant::Other,
            PoolConstant::Utf8(b"hashCode".to_vec()),
        ],
        methods: vec![
            ClassMethod { name_index: 5, attributes: vec![] },
            ClassMethod {
                name_index: 0,
                attributes: vec![ClassAttribute::Other, ClassAttribute::Code(code)],
            },
        ],
        attributes: vec![
            ClassAttribute::Other,
            ClassAttribute::BootstrapMethods(vec![BootstrapMethodEntry {
                bootstrap_arguments: vec![argument],
            }]),
        ],
    }
}

#[test]
fn finds_the_template_of_to_string() {
    let c = class("aBc", vec![CodeInstruction::Other, CodeInstruction::InvokeDynamic(3)], 2);
    assert_eq!(tostring_templates(&c), Some(vec!["Item[id=\u{1}]".to_string()]));
}

#[test]
fn classes_in_packages_are_skipped() {
    let c = class("java/lang/String", vec![CodeInstruction::InvokeDynamic(3)], 2);
    assert_eq!(tostring_templates(&c), Some(vec![]));
}

#[test]
fn non_string_argument_gives_nothing() {
    let c = class("aBc", vec![CodeInstruction::InvokeDynamic(3)], 4);
    assert_eq!(tostring_templates(&c), Some(vec![]));
}

#[test]
fn call_site_outside_the_pool_fails() {
    let c = class("aBc", vec![CodeInstruction::InvokeDynamic(40)], 2);
    assert_eq!(tostring_templates(&c), None);
}

#[test]
fn argument_outside_the_pool_fails() {
    let c = class("aBc", vec![CodeInstruction::InvokeDynamic(3)], 99);
    assert_eq!(tostring_templates(&c), None);
}

#[test]
fn class_without_to_string_gives_nothing() {
    let mut c = class("aBc", vec![CodeInstruction::InvokeDynamic(3)], 2);
    c.methods.remove(1);
    assert_eq!(tostring_templates(&c), Some(vec![]));
}

#[test]
fn utf8_constants() {
    let c = class("aBc", vec![], 2);
    assert_eq!(utf8_string(&c.constants, 0), Some("toString".to_string()));
    assert_eq!(utf8_string(&c.constants, 2), None);
    assert_eq!(utf8_string(&c.constants, 100), None);
}
