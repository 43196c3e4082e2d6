//! Which string templates the `toString` method of a loaded JVM class builds
//! with `invokedynamic`: the scan that a class-loading agent makes of every
//! class it sees.
use crate::buf::read::str_from_utf8;
use vstd::prelude::*;
use vstd::utf8::{decode_utf8, valid_utf8};

verus! {

/// A constant of a class's constant pool, as far as the scan reads it.
pub enum PoolConstant {
    Utf8(Vec<u8>),
    /// A string constant: the index of its UTF-8 constant.
    String(usize),
    InvokeDynamic { bootstrap_method_attr_index: usize },
    Other,
}

/// An instruction of a method's code, as far as the scan reads it.
pub enum CodeInstruction {
    /// `invokedynamic`, with the constant pool index of its call site.
    InvokeDynamic(u16),
    Other,
}

/// An entry of a `BootstrapMethods` attribute: the constant pool indices of
/// its arguments.
pub struct BootstrapMethodEntry {
    pub bootstrap_arguments: Vec<usize>,
}

/// An attribute of a class or a method, as far as the scan reads it.
pub enum ClassAttribute {
    /// A method's code.
    Code(Vec<CodeInstruction>),
    BootstrapMethods(Vec<BootstrapMethodEntry>),
    Other,
}

/// A method: the constant pool index of its name, and its attributes.
pub struct ClassMethod {
    pub name_index: usize,
    pub attributes: Vec<ClassAttribute>,
}

/// A class that the virtual machine loads, as far as the scan reads it.
pub struct LoadedClass {
    pub class_name: String,
    pub constants: Vec<PoolConstant>,
    pub methods: Vec<ClassMethod>,
    pub attributes: Vec<ClassAttribute>,
}

/// The string of the UTF-8 constant at `idx`, where there is one and its
/// bytes are valid UTF-8.
pub open spec fn spec_utf8_string(constants: Seq<PoolConstant>, idx: int) -> Option<Seq<char>> {
    if 0 <= idx < constants.len() {
        match constants[idx] {
            PoolConstant::Utf8(bytes) => if valid_utf8(bytes@) {
                Some(decode_utf8(bytes@))
            } else {
                None
            },
            _ => None,
        }
    } else {
        None
    }
}

/// The string of the UTF-8 constant at `idx`, where there is one and its
/// bytes are valid UTF-8.
pub fn utf8_string(constants: &Vec<PoolConstant>, idx: u16) -> (r: Option<String>)
    ensures
        r.deep_view() == spec_utf8_string(constants@, idx as int),
{
    let i = idx as usize;
    if i < constants.len() {
        match &constants[i] {
            PoolConstant::Utf8(bytes) => match str_from_utf8(bytes.as_slice()) {
                Some(s) => {
                    let string = s.to_string();
                    proof {
                        vstd::utf8::encode_utf8_decode_utf8(s@);
                        broadcast use vstd::string::to_string_from_display_ensures_for_str;

                    }
                    Some(string)
                },
                None => None,
            },
            _ => None,
        }
    } else {
        None
    }
}

/// What one class attribute gives for the bootstrap method `bi`: a
/// `BootstrapMethods` attribute gives the string that the method's first
/// argument names, where that argument is a string constant. `None` where the
/// scan fails: no such method, no argument, an argument outside the pool, or
/// a string constant without a valid UTF-8 constant.
pub open spec fn spec_bootstrap_attribute(
    constants: Seq<PoolConstant>,
    bi: int,
    attribute: ClassAttribute,
) -> Option<Seq<Seq<char>>> {
    match attribute {
        ClassAttribute::BootstrapMethods(entries) => if 0 <= bi < entries@.len()
            && entries@[bi].bootstrap_arguments@.len() > 0 {
            let arg = entries@[bi].bootstrap_arguments@[0] as int;
            if arg < constants.len() {
                match constants[arg] {
                    PoolConstant::String(idx) => match spec_utf8_string(
                        constants,
                        (idx as u16) as int,
                    ) {
                        Some(s) => Some(seq![s]),
                        None => None,
                    },
                    _ => Some(Seq::empty()),
                }
            } else {
                None
            }
        } else {
            None
        },
        _ => Some(Seq::empty()),
    }
}

/// What the class attributes give, in turn, for the bootstrap method `bi`.
pub open spec fn spec_bootstrap_attributes(
    constants: Seq<PoolConstant>,
    bi: int,
    attributes: Seq<ClassAttribute>,
) -> Option<Seq<Seq<char>>>
    decreases attributes.len(),
{
    if attributes.len() == 0 {
        Some(Seq::empty())
    } else {
        match spec_bootstrap_attributes(constants, bi, attributes.drop_last()) {
            Some(found) => match spec_bootstrap_attribute(constants, bi, attributes.last()) {
                Some(more) => Some(found + more),
                None => None,
            },
            None => None,
        }
    }
}

/// What one instruction gives: an `invokedynamic` whose call site is an
/// invokedynamic constant gives what the class attributes give for its
/// bootstrap method. `None` where the call site is outside the pool, or the
/// class attributes fail.
pub open spec fn spec_instruction(
    constants: Seq<PoolConstant>,
    class_attributes: Seq<ClassAttribute>,
    instruction: CodeInstruction,
) -> Option<Seq<Seq<char>>> {
    match instruction {
        CodeInstruction::InvokeDynamic(value) => if (value as int) < constants.len() {
            match constants[value as int] {
                PoolConstant::InvokeDynamic { bootstrap_method_attr_index } => {
                    spec_bootstrap_attributes(
                        constants,
                        bootstrap_method_attr_index as int,
                        class_attributes,
                    )
                },
                _ => Some(Seq::empty()),
            }
        } else {
            None
        },
        CodeInstruction::Other => Some(Seq::empty()),
    }
}

/// What a method's code gives, instruction by instruction.
pub open spec fn spec_code(
    constants: Seq<PoolConstant>,
    class_attributes: Seq<ClassAttribute>,
    code: Seq<CodeInstruction>,
) -> Option<Seq<Seq<char>>>
    decreases code.len(),
{
    if code.len() == 0 {
        Some(Seq::empty())
    } else {
        match spec_code(constants, class_attributes, code.drop_last()) {
            Some(found) => match spec_instruction(constants, class_attributes, code.last()) {
                Some(more) => Some(found + more),
                None => None,
            },
            None => None,
        }
    }
}

/// What a method's attributes give: each `Code` attribute, its code.
pub open spec fn spec_method_attributes(
    constants: Seq<PoolConstant>,
    class_attributes: Seq<ClassAttribute>,
    attributes: Seq<ClassAttribute>,
) -> Option<Seq<Seq<char>>>
    decreases attributes.len(),
{
    if attributes.len() == 0 {
        Some(Seq::empty())
    } else {
        match spec_method_attributes(constants, class_attributes, attributes.drop_last()) {
            Some(found) => match attributes.last() {
                ClassAttribute::Code(code) => match spec_code(
                    constants,
                    class_attributes,
                    code@,
                ) {
                    Some(more) => Some(found + more),
                    None => None,
                },
                _ => Some(found),
            },
            None => None,
        }
    }
}

/// Whether a method is named `toString`.
pub open spec fn spec_is_tostring(constants: Seq<PoolConstant>, method: ClassMethod) -> bool {
    spec_utf8_string(constants, (method.name_index as u16) as int) == Some("toString"@)
}

/// The index of the first method named `toString`, if any.
pub open spec fn spec_first_tostring(constants: Seq<PoolConstant>, methods: Seq<ClassMethod>) -> Option<
    int,
>
    decreases methods.len(),
{
    if methods.len() == 0 {
        None
    } else {
        match spec_first_tostring(constants, methods.drop_last()) {
            Some(i) => Some(i),
            None => if spec_is_tostring(constants, methods.last()) {
                Some(methods.len() - 1)
            } else {
                None
            },
        }
    }
}

/// The templates of a class, in the order they are found; `None` where the
/// scan fails on a malformed class. A class whose name holds a `/` (one in a
/// package) and a class without a `toString` method give none.
pub open spec fn spec_tostring_templates(class: LoadedClass) -> Option<Seq<Seq<char>>> {
    if class.class_name@.contains('/') {
        Some(Seq::empty())
    } else {
        match spec_first_tostring(class.constants@, class.methods@) {
            Some(i) => spec_method_attributes(
                class.constants@,
                class.attributes@,
                class.methods@[i].attributes@,
            ),
            None => Some(Seq::empty()),
        }
    }
}


/// An `invokedynamic` whose call site names bootstrap method `bi`, in a class
/// with one `BootstrapMethods` attribute, finds the string that the first
/// argument of entry `bi` of that attribute names: the UTF-8 constant behind
/// that argument's string constant.
pub proof fn lemma_invokedynamic_template(
    constants: Seq<PoolConstant>,
    value: u16,
    bi: usize,
    entries: Vec<BootstrapMethodEntry>,
    idx: usize,
    bytes: Vec<u8>,
)
    requires
        (value as int) < constants.len(),
        constants[value as int] == (PoolConstant::InvokeDynamic { bootstrap_method_attr_index: bi }),
        bi < entries@.len(),
        entries@[bi as int].bootstrap_arguments@.len() > 0,
        entries@[bi as int].bootstrap_arguments@[0] < constants.len(),
        constants[entries@[bi as int].bootstrap_arguments@[0] as int] == PoolConstant::String(idx),
        ((idx as u16) as int) < constants.len(),
        constants[(idx as u16) as int] == PoolConstant::Utf8(bytes),
        valid_utf8(bytes@),
    ensures
        spec_instruction(
            constants,
            seq![ClassAttribute::BootstrapMethods(entries)],
            CodeInstruction::InvokeDynamic(value),
        ) == Some(seq![decode_utf8(bytes@)]),
{
    let attributes = seq![ClassAttribute::BootstrapMethods(entries)];
    let s = decode_utf8(bytes@);
    assert(spec_utf8_string(constants, (idx as u16) as int) == Some(s));
    assert(spec_bootstrap_attribute(constants, bi as int, attributes.last()) == Some(seq![s]));
    assert(attributes.drop_last() =~= Seq::<ClassAttribute>::empty());
    assert(spec_bootstrap_attributes(constants, bi as int, attributes.drop_last()) == Some(
        Seq::<Seq<char>>::empty(),
    ));
    assert(Seq::<Seq<char>>::empty() + seq![s] =~= seq![s]);
    assert(spec_bootstrap_attributes(constants, bi as int, attributes) == Some(seq![s]));
}

/// What a `BootstrapMethods` attribute gives for bootstrap method `bi` rests
/// on its entry `bi` alone: two attributes with the same entry `bi` give the
/// same, whatever their other entries hold.
pub proof fn lemma_bootstrap_entry_alone(
    constants: Seq<PoolConstant>,
    bi: int,
    entries: Vec<BootstrapMethodEntry>,
    others: Vec<BootstrapMethodEntry>,
)
    requires
        0 <= bi < entries@.len(),
        0 <= bi < others@.len(),
        entries@[bi].bootstrap_arguments@ == others@[bi].bootstrap_arguments@,
    ensures
        spec_bootstrap_attribute(constants, bi, ClassAttribute::BootstrapMethods(entries))
            == spec_bootstrap_attribute(constants, bi, ClassAttribute::BootstrapMethods(others)),
{
}

/// Once the attributes up to some point fail, all of them fail.
proof fn lemma_bootstrap_attributes_fail(
    constants: Seq<PoolConstant>,
    bi: int,
    attributes: Seq<ClassAttribute>,
    k: int,
)
    requires
        0 <= k <= attributes.len(),
        spec_bootstrap_attributes(constants, bi, attributes.take(k)) is None,
    ensures
        spec_bootstrap_attributes(constants, bi, attributes) is None,
    decreases attributes.len() - k,
{
    if k < attributes.len() {
        assert(attributes.take(k + 1).drop_last() =~= attributes.take(k));
        lemma_bootstrap_attributes_fail(constants, bi, attributes, k + 1);
    } else {
        assert(attributes.take(k) =~= attributes);
    }
}

/// Once the code up to some point fails, all of it fails.
proof fn lemma_code_fail(
    constants: Seq<PoolConstant>,
    class_attributes: Seq<ClassAttribute>,
    code: Seq<CodeInstruction>,
    k: int,
)
    requires
        0 <= k <= code.len(),
        spec_code(constants, class_attributes, code.take(k)) is None,
    ensures
        spec_code(constants, class_attributes, code) is None,
    decreases code.len() - k,
{
    if k < code.len() {
        assert(code.take(k + 1).drop_last() =~= code.take(k));
        lemma_code_fail(constants, class_attributes, code, k + 1);
    } else {
        assert(code.take(k) =~= code);
    }
}

/// Once the attributes up to some point fail, all of them fail.
proof fn lemma_method_attributes_fail(
    constants: Seq<PoolConstant>,
    class_attributes: Seq<ClassAttribute>,
    attributes: Seq<ClassAttribute>,
    k: int,
)
    requires
        0 <= k <= attributes.len(),
        spec_method_attributes(constants, class_attributes, attributes.take(k)) is None,
    ensures
        spec_method_attributes(constants, class_attributes, attributes) is None,
    decreases attributes.len() - k,
{
    if k < attributes.len() {
        assert(attributes.take(k + 1).drop_last() =~= attributes.take(k));
        lemma_method_attributes_fail(constants, class_attributes, attributes, k + 1);
    } else {
        assert(attributes.take(k) =~= attributes);
    }
}

/// What the class attributes give for the bootstrap method `bi`.
fn scan_bootstrap_attributes(class: &LoadedClass, bi: usize) -> (r: Option<Vec<String>>)
    ensures
        r.deep_view() == spec_bootstrap_attributes(class.constants@, bi as int, class.attributes@),
{
    let ghost constants = class.constants@;
    let ghost attributes = class.attributes@;
    let mut found: Vec<String> = Vec::new();
    let mut i: usize = 0;
    proof {
        assert(attributes.take(0) =~= Seq::<ClassAttribute>::empty());
        assert(found.deep_view() =~= Seq::<Seq<char>>::empty());
    }
    while i < class.attributes.len()
        invariant
            constants == class.constants@,
            attributes == class.attributes@,
            0 <= i <= attributes.len(),
            spec_bootstrap_attributes(constants, bi as int, attributes.take(i as int)) == Some(
                found.deep_view(),
            ),
        decreases attributes.len() - i,
    {
        proof {
            assert(attributes.take(i + 1).drop_last() =~= attributes.take(i as int));
        }
        match &class.attributes[i] {
            ClassAttribute::BootstrapMethods(entries) => {
                if bi >= entries.len() || entries[bi].bootstrap_arguments.len() == 0 {
                    proof {
                        lemma_bootstrap_attributes_fail(constants, bi as int, attributes, i + 1);
                    }
                    return None;
                }
                let arg = entries[bi].bootstrap_arguments[0];
                if arg >= class.constants.len() {
                    proof {
                        lemma_bootstrap_attributes_fail(constants, bi as int, attributes, i + 1);
                    }
                    return None;
                }
                match &class.constants[arg] {
                    PoolConstant::String(idx) => {
                        let utf8_index: u16 = #[verifier::truncate] (*idx as u16);
                        match utf8_string(&class.constants, utf8_index) {
                            Some(s) => {
                                let ghost before = found.deep_view();
                                found.push(s);
                                proof {
                                    assert(found.deep_view() =~= before + seq![s@]);
                                }
                            },
                            None => {
                                proof {
                                    lemma_bootstrap_attributes_fail(
                                        constants,
                                        bi as int,
                                        attributes,
                                        i + 1,
                                    );
                                }
                                return None;
                            },
                        }
                    },
                    _ => {
                        proof {
                            assert(found.deep_view() + Seq::<Seq<char>>::empty() =~= found.deep_view());
                        }
                    },
                }
            },
            _ => {
                proof {
                    assert(found.deep_view() + Seq::<Seq<char>>::empty() =~= found.deep_view());
                }
            },
        }
        i = i + 1;
    }
    proof {
        assert(attributes.take(attributes.len() as int) =~= attributes);
    }
    Some(found)
}

/// What one instruction gives.
fn scan_instruction(class: &LoadedClass, instruction: &CodeInstruction) -> (r: Option<
    Vec<String>,
>)
    ensures
        r.deep_view() == spec_instruction(class.constants@, class.attributes@, *instruction),
{
    match instruction {
        CodeInstruction::InvokeDynamic(value) => {
            let at = *value as usize;
            if at >= class.constants.len() {
                return None;
            }
            match &class.constants[at] {
                PoolConstant::InvokeDynamic { bootstrap_method_attr_index } => {
                    scan_bootstrap_attributes(class, *bootstrap_method_attr_index)
                },
                _ => {
                    let none: Vec<String> = Vec::new();
                    proof {
                        assert(none.deep_view() =~= Seq::<Seq<char>>::empty());
                    }
                    Some(none)
                },
            }
        },
        CodeInstruction::Other => {
            let none: Vec<String> = Vec::new();
            proof {
                assert(none.deep_view() =~= Seq::<Seq<char>>::empty());
            }
            Some(none)
        },
    }
}

/// What a method's code gives.
fn scan_code(class: &LoadedClass, code: &Vec<CodeInstruction>) -> (r: Option<Vec<String>>)
    ensures
        r.deep_view() == spec_code(class.constants@, class.attributes@, code@),
{
    let ghost constants = class.constants@;
    let ghost class_attributes = class.attributes@;
    let mut found: Vec<String> = Vec::new();
    let mut i: usize = 0;
    proof {
        assert(code@.take(0) =~= Seq::<CodeInstruction>::empty());
        assert(found.deep_view() =~= Seq::<Seq<char>>::empty());
    }
    while i < code.len()
        invariant
            constants == class.constants@,
            class_attributes == class.attributes@,
            0 <= i <= code@.len(),
            spec_code(constants, class_attributes, code@.take(i as int)) == Some(
                found.deep_view(),
            ),
        decreases code@.len() - i,
    {
        proof {
            assert(code@.take(i + 1).drop_last() =~= code@.take(i as int));
        }
        let mut more = match scan_instruction(class, &code[i]) {
            Some(more) => more,
            None => {
                proof {
                    lemma_code_fail(constants, class_attributes, code@, i + 1);
                }
                return None;
            },
        };
        let ghost before = found.deep_view();
        let ghost added = more.deep_view();
        found.append(&mut more);
        proof {
            assert(found.deep_view() =~= before + added);
        }
        i = i + 1;
    }
    proof {
        assert(code@.take(code@.len() as int) =~= code@);
    }
    Some(found)
}

/// What a method's attributes give.
fn scan_method_attributes(class: &LoadedClass, method: &ClassMethod) -> (r: Option<Vec<String>>)
    ensures
        r.deep_view() == spec_method_attributes(
            class.constants@,
            class.attributes@,
            method.attributes@,
        ),
{
    let ghost constants = class.constants@;
    let ghost class_attributes = class.attributes@;
    let ghost attributes = method.attributes@;
    let mut found: Vec<String> = Vec::new();
    let mut i: usize = 0;
    proof {
        assert(attributes.take(0) =~= Seq::<ClassAttribute>::empty());
        assert(found.deep_view() =~= Seq::<Seq<char>>::empty());
    }
    while i < method.attributes.len()
        invariant
            constants == class.constants@,
            class_attributes == class.attributes@,
            attributes == method.attributes@,
            0 <= i <= attributes.len(),
            spec_method_attributes(constants, class_attributes, attributes.take(i as int))
                == Some(found.deep_view()),
        decreases attributes.len() - i,
    {
        proof {
            assert(attributes.take(i + 1).drop_last() =~= attributes.take(i as int));
        }
        match &method.attributes[i] {
            ClassAttribute::Code(code) => {
                let mut more = match scan_code(class, code) {
                    Some(more) => more,
                    None => {
                        proof {
                            lemma_method_attributes_fail(
                                constants,
                                class_attributes,
                                attributes,
                                i + 1,
                            );
                        }
                        return None;
                    },
                };
                let ghost before = found.deep_view();
                let ghost added = more.deep_view();
                found.append(&mut more);
                proof {
                    assert(found.deep_view() =~= before + added);
                }
            },
            _ => {},
        }
        i = i + 1;
    }
    proof {
        assert(attributes.take(attributes.len() as int) =~= attributes);
    }
    Some(found)
}

/// The index of the first method named `toString`, if any.
fn find_tostring(class: &LoadedClass) -> (r: Option<usize>)
    ensures
        r matches Some(i) ==> i < class.methods@.len() && spec_first_tostring(
            class.constants@,
            class.methods@,
        ) == Some(i as int),
        r is None ==> spec_first_tostring(class.constants@, class.methods@) is None,
{
    let ghost constants = class.constants@;
    let ghost methods = class.methods@;
    let target = "toString".to_string();
    proof {
        broadcast use vstd::string::to_string_from_display_ensures_for_str;

        assert(methods.take(0) =~= Seq::<ClassMethod>::empty());
    }
    let mut i: usize = 0;
    while i < class.methods.len()
        invariant
            constants == class.constants@,
            methods == class.methods@,
            target@ == "toString"@,
            0 <= i <= methods.len(),
            spec_first_tostring(constants, methods.take(i as int)) is None,
        decreases methods.len() - i,
    {
        proof {
            assert(methods.take(i + 1).drop_last() =~= methods.take(i as int));
            assert(methods.take(i + 1).last() == methods[i as int]);
        }
        let name_index: u16 = #[verifier::truncate] (class.methods[i].name_index as u16);
        match utf8_string(&class.constants, name_index) {
            Some(name) => {
                if name == target {
                    proof {
                        lemma_first_tostring_prefix(constants, methods, i as int + 1);
                    }
                    return Some(i);
                }
            },
            None => {},
        }
        i = i + 1;
    }
    proof {
        assert(methods.take(methods.len() as int) =~= methods);
    }
    None
}

/// The first `toString` method of a prefix is the first of the whole list.
proof fn lemma_first_tostring_prefix(
    constants: Seq<PoolConstant>,
    methods: Seq<ClassMethod>,
    k: int,
)
    requires
        0 <= k <= methods.len(),
        spec_first_tostring(constants, methods.take(k)) is Some,
    ensures
        spec_first_tostring(constants, methods) == spec_first_tostring(constants, methods.take(k)),
    decreases methods.len() - k,
{
    if k < methods.len() {
        assert(methods.take(k + 1).drop_last() =~= methods.take(k));
        lemma_first_tostring_prefix(constants, methods, k + 1);
    } else {
        assert(methods.take(k) =~= methods);
    }
}

/// Whether a class name holds a `/`.
fn has_slash(name: &str) -> (r: bool)
    ensures
        r == name@.contains('/'),
{
    broadcast use vstd::string::axiom_spec_iter;

    for c in it: name.chars()
        invariant
            it.seq() == name@,
            forall|j: int| 0 <= j < it.index() ==> name@[j] != '/',
    {
        if c == '/' {
            return true;
        }
    }
    false
}

/// The string templates that the `toString` method of `class` builds with
/// `invokedynamic`, in the order the scan finds them; `None` where the scan
/// fails on a malformed class.
pub fn tostring_templates(class: &LoadedClass) -> (r: Option<Vec<String>>)
    ensures
        r.deep_view() == spec_tostring_templates(*class),
{
    if has_slash(class.class_name.as_str()) {
        let none: Vec<String> = Vec::new();
        proof {
            assert(none.deep_view() =~= Seq::<Seq<char>>::empty());
        }
        return Some(none);
    }
    match find_tostring(class) {
        Some(i) => scan_method_attributes(class, &class.methods[i]),
        None => {
            let none: Vec<String> = Vec::new();
            proof {
                assert(none.deep_view() =~= Seq::<Seq<char>>::empty());
            }
            Some(none)
        },
    }
}

} // verus!
