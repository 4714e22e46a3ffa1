//! Binding of the native methods of Java classes to functions of the library.
//!
//! For each native method of a class the function is looked up by the name that
//! the Java Native Interface prescribes, and all of them are bound at once.
use crate::text;
use vstd::prelude::*;
use vstd::string::*;

verus! {

/// A class whose native methods may be bound, by its fully qualified name.
pub struct NativeBridgeRegistrar {
    pub class_name: &'static str,
}

/// The bit of the modifiers of a method that says that it is native.
pub const NATIVE: i32 = 0x0100;

/// The letter for a primitive type or for `void`.
pub open spec fn primitive_descriptor(name: Seq<char>) -> Option<Seq<char>> {
    if name == "void"@ {
        Some("V"@)
    } else if name == "boolean"@ {
        Some("Z"@)
    } else if name == "byte"@ {
        Some("B"@)
    } else if name == "char"@ {
        Some("C"@)
    } else if name == "short"@ {
        Some("S"@)
    } else if name == "int"@ {
        Some("I"@)
    } else if name == "long"@ {
        Some("J"@)
    } else if name == "float"@ {
        Some("F"@)
    } else if name == "double"@ {
        Some("D"@)
    } else {
        None
    }
}

/// The type descriptor of a class, by the name that the class gives of itself.
pub open spec fn descriptor(name: Seq<char>) -> Seq<char> {
    match primitive_descriptor(name) {
        Some(letter) => letter,
        None => if name.len() > 0 && name[0] == '[' {
            text::replaced(name, '.', '/')
        } else {
            "L"@ + text::replaced(name, '.', '/') + ";"@
        },
    }
}

/// Spells the letter for a primitive type or for `void`.
fn primitive_letter(name: &str) -> (letter: Option<&'static str>)
    ensures
        primitive_descriptor(name@) is Some <==> letter is Some,
        letter is Some ==> primitive_descriptor(name@) == Some(letter->Some_0@),
{
    if text::same_text(name, "void") {
        Some("V")
    } else if text::same_text(name, "boolean") {
        Some("Z")
    } else if text::same_text(name, "byte") {
        Some("B")
    } else if text::same_text(name, "char") {
        Some("C")
    } else if text::same_text(name, "short") {
        Some("S")
    } else if text::same_text(name, "int") {
        Some("I")
    } else if text::same_text(name, "long") {
        Some("J")
    } else if text::same_text(name, "float") {
        Some("F")
    } else if text::same_text(name, "double") {
        Some("D")
    } else {
        None
    }
}

/// Spells the type descriptor of a class.
pub fn class_to_descriptor(name: &str) -> (spelled: String)
    ensures
        spelled@ == descriptor(name@),
{
    proof {
        reveal_strlit("/");
    }
    match primitive_letter(name) {
        Some(letter) => letter.to_owned(),
        None => {
            let slashed = text::replace_char(name, '.', "/");
            assert(slashed@ =~= text::replaced(name@, '.', '/'));
            if name.unicode_len() > 0 && name.get_char(0) == '[' {
                slashed
            } else {
                let mut spelled = "L".to_owned();
                spelled.append(slashed.as_str());
                spelled.append(";");
                spelled
            }
        },
    }
}

/// Descriptors one after the other.
pub open spec fn descriptors(names: Seq<String>) -> Seq<char>
    decreases names.len(),
{
    if names.len() == 0 {
        seq![]
    } else {
        descriptors(names.drop_last()) + descriptor(names.last()@)
    }
}

/// The signature of a method, from the names of the types it takes and returns.
pub open spec fn signature_text(parameters: Seq<String>, returned: Seq<char>) -> Seq<char> {
    "("@ + descriptors(parameters) + ")"@ + descriptor(returned)
}

/// Spells the signature of a method, from the names of the types it takes and
/// returns.
pub fn spell_signature(parameters: &Vec<String>, returned: &str) -> (signature: String)
    ensures
        signature@ == signature_text(parameters@, returned@),
{
    let mut signature = "(".to_owned();
    let mut i: usize = 0;
    assert("("@ + descriptors(parameters@.take(0)) =~= "("@);
    while i < parameters.len()
        invariant
            i <= parameters@.len(),
            signature@ == "("@ + descriptors(parameters@.take(i as int)),
        decreases parameters@.len() - i,
    {
        let ghost before = signature@;
        signature.append(class_to_descriptor(parameters[i].as_str()).as_str());
        i += 1;
        assert(parameters@.take(i as int).drop_last() =~= parameters@.take(i - 1));
        assert(signature@ =~= "("@ + descriptors(parameters@.take(i as int)));
    }
    assert(parameters@.take(i as int) =~= parameters@);
    signature.append(")");
    signature.append(class_to_descriptor(returned).as_str());
    signature
}

/// The name of the function for a native method.
pub open spec fn symbol_text(class_name: Seq<char>, method: Seq<char>) -> Seq<char> {
    "Java_"@ + text::replaced(class_name, '.', '_') + "_"@ + method
}

/// Spells the name of the function for a native method.
pub fn symbol_name(class_name: &str, method: &str) -> (symbol: String)
    ensures
        symbol@ == symbol_text(class_name@, method@),
{
    proof {
        reveal_strlit("_");
    }
    let mut symbol = "Java_".to_owned();
    let joined = text::replace_char(class_name, '.', "_");
    assert(joined@ =~= text::replaced(class_name@, '.', '_'));
    symbol.append(joined.as_str());
    symbol.append("_");
    symbol.append(method);
    symbol
}

/// The modifiers are those of a native method.
pub open spec fn native(modifiers: i32) -> bool {
    modifiers & NATIVE != 0
}

/// Says whether the modifiers are those of a native method.
pub fn is_native(modifiers: i32) -> (is: bool)
    ensures
        is == native(modifiers),
{
    modifiers & NATIVE != 0
}

/// A native method, and the address of the function for it, 0 if there is none.
pub struct Binding {
    pub name: String,
    pub signature: String,
    pub address: usize,
}

/// The message for a native method without a function.
pub open spec fn missing_text(class_name: Seq<char>, method: Seq<char>) -> Seq<char> {
    "Symbol not found: "@ + symbol_text(class_name, method)
        + " — is the #[no_mangle] function defined in Rust?"@
}

/// The native method at `i` is the first one without a function.
pub open spec fn first_missing(methods: Seq<Binding>, i: int) -> bool {
    &&& 0 <= i < methods.len()
    &&& methods[i].address == 0
    &&& forall|k: int| 0 <= k < i ==> (#[trigger] methods[k]).address != 0
}

/// There are native methods, and each has its function.
pub open spec fn complete(methods: Seq<Binding>) -> bool {
    &&& methods.len() > 0
    &&& forall|i: int| 0 <= i < methods.len() ==> (#[trigger] methods[i]).address != 0
}

/// `table` is what can be bound of the native methods of a class: all of them,
/// in order, or nothing if one has no function or there are none.
pub open spec fn table_of(
    class_name: Seq<char>,
    methods: Seq<Binding>,
    table: Result<Vec<Binding>, String>,
) -> bool {
    &&& forall|i: int| #[trigger]
        first_missing(methods, i) ==> table is Err && table->Err_0@ == missing_text(
            class_name,
            methods[i].name@,
        )
    &&& methods.len() == 0 ==> table is Err && table->Err_0@ == "No native methods in "@
        + class_name
    &&& complete(methods) ==> table is Ok && table->Ok_0@ == methods
}

/// Makes the table that the native methods of a class are bound by, from what
/// was found for them.
pub fn register_natives_for_class(class_name: &str, methods: &Vec<Binding>) -> (table: Result<
    Vec<Binding>,
    String,
>)
    ensures
        table_of(class_name@, methods@, table),
        table is Ok <==> complete(methods@),
{
    let mut table: Vec<Binding> = Vec::new();
    let mut i: usize = 0;
    while i < methods.len()
        invariant
            i <= methods@.len(),
            forall|k: int| 0 <= k < i ==> (#[trigger] methods@[k]).address != 0,
            table@ == methods@.take(i as int),
        decreases methods@.len() - i,
    {
        let method = &methods[i];
        if method.address == 0 {
            assert(first_missing(methods@, i as int));
            let mut message = "Symbol not found: ".to_owned();
            message.append(symbol_name(class_name, method.name.as_str()).as_str());
            message.append(" — is the #[no_mangle] function defined in Rust?");
            return Err(message);
        }
        table.push(
            Binding {
                name: method.name.clone(),
                signature: method.signature.clone(),
                address: method.address,
            },
        );
        i += 1;
        assert(table@ =~= methods@.take(i as int));
    }
    assert(methods@.take(i as int) =~= methods@);
    if methods.len() == 0 {
        let mut message = "No native methods in ".to_owned();
        message.append(class_name);
        return Err(message);
    }
    Ok(table)
}

/// The message when the machine does not bind a table.
pub open spec fn unbound_text(class_name: Seq<char>, reason: Seq<char>) -> Seq<char> {
    "RegisterNatives failed for "@ + class_name + ": "@ + reason
}

/// `bound` is what binding a class comes to when the machine answers `answer` to
/// the table.
pub open spec fn bound_as(
    class_name: Seq<char>,
    answer: Result<(), String>,
    bound: Result<(), String>,
) -> bool {
    match answer {
        Ok(_) => bound is Ok,
        Err(reason) => bound is Err && bound->Err_0@ == unbound_text(class_name, reason@),
    }
}

/// Settles the binding of a class once the machine has answered to the table.
pub fn settle_registration(class_name: &str, answer: &Result<(), String>) -> (bound: Result<
    (),
    String,
>)
    ensures
        bound_as(class_name@, *answer, bound),
{
    match answer {
        Ok(_) => Ok(()),
        Err(reason) => {
            let mut message = "RegisterNatives failed for ".to_owned();
            message.append(class_name);
            message.append(": ");
            message.append(reason.as_str());
            Err(message)
        },
    }
}

/// An exception to be thrown.
pub struct JavaException {
    /// The name of its class, with slashes.
    pub class: &'static str,
    pub message: String,
}

/// A class of this name may be bound.
pub open spec fn registered(registrars: Seq<NativeBridgeRegistrar>, name: Seq<char>) -> bool {
    exists|i: int| 0 <= i < registrars.len() && (#[trigger] registrars[i]).class_name@ == name
}

/// Says whether a class of this name may be bound.
fn is_registered(registrars: &Vec<NativeBridgeRegistrar>, name: &str) -> (is: bool)
    ensures
        is == registered(registrars@, name@),
{
    let mut i: usize = 0;
    while i < registrars.len()
        invariant
            i <= registrars@.len(),
            forall|k: int| 0 <= k < i ==> (#[trigger] registrars@[k]).class_name@ != name@,
        decreases registrars@.len() - i,
    {
        if text::same_text(registrars[i].class_name, name) {
            assert(registrars@[i as int].class_name@ == name@);
            return true;
        }
        i += 1;
    }
    false
}

/// Decides whether a class may be bound, from its name or from why it could not
/// be read.
pub fn admit_class(name: Result<String, String>, registrars: &Vec<NativeBridgeRegistrar>) -> (
    admitted: Result<String, JavaException>)
    ensures
        match name {
            Err(reason) => admitted is Err && admitted->Err_0.class@
                == "java/lang/RuntimeException"@ && admitted->Err_0.message@ == reason@,
            Ok(class_name) => if registered(registrars@, class_name@) {
                admitted == Ok::<String, JavaException>(class_name)
            } else {
                admitted is Err && admitted->Err_0.class@ == "java/lang/IllegalArgumentException"@
                    && admitted->Err_0.message@ == "No native registrar for: "@ + class_name@
                    + ". Did the plugin call register_native_bridge!()?"@
            },
        },
{
    match name {
        Err(reason) => Err(runtime_exception(reason)),
        Ok(class_name) => {
            if is_registered(registrars, class_name.as_str()) {
                return Ok(class_name);
            }
            let mut message = "No native registrar for: ".to_owned();
            message.append(class_name.as_str());
            message.append(". Did the plugin call register_native_bridge!()?");
            Err(JavaException { class: "java/lang/IllegalArgumentException", message })
        },
    }
}

/// The exception for a failure within the library.
pub fn runtime_exception(reason: String) -> (exception: JavaException)
    ensures
        exception.class@ == "java/lang/RuntimeException"@,
        exception.message == reason,
{
    JavaException { class: "java/lang/RuntimeException", message: reason }
}

/// The native methods of a class are bound if and only if there are some, each
/// has its function, and the machine takes the table. Otherwise none is, and the
/// first method without a function is named if there is one.
pub proof fn law_all_or_nothing(
    class_name: Seq<char>,
    methods: Seq<Binding>,
    table: Result<Vec<Binding>, String>,
    answer: Result<(), String>,
    bound: Result<(), String>,
)
    requires
        table_of(class_name, methods, table),
        bound_as(class_name, answer, bound),
    ensures
        table is Ok && bound is Ok <==> complete(methods) && answer is Ok,
        table is Ok ==> table->Ok_0@ == methods,
        methods.len() > 0 && !complete(methods) ==> exists|i: int| #[trigger]
            first_missing(methods, i) && table is Err && table->Err_0@ == missing_text(
                class_name,
                methods[i].name@,
            ),
        forall|i: int, k: int|
            first_missing(methods, i) && first_missing(methods, k) ==> i == k,
{
    if methods.len() > 0 && !complete(methods) {
        let i = choose|i: int| 0 <= i < methods.len() && (#[trigger] methods[i]).address == 0;
        lemma_first_missing(methods, i);
        let k = choose|k: int| first_missing(methods, k);
        assert(first_missing(methods, k));
    }
}

/// If a method has no function, there is a first such method.
proof fn lemma_first_missing(methods: Seq<Binding>, i: int)
    requires
        0 <= i < methods.len(),
        methods[i].address == 0,
    ensures
        exists|k: int| first_missing(methods, k),
    decreases i,
{
    if exists|k: int| 0 <= k < i && (#[trigger] methods[k]).address == 0 {
        let k = choose|k: int| 0 <= k < i && (#[trigger] methods[k]).address == 0;
        lemma_first_missing(methods, k);
    } else {
        assert(first_missing(methods, i));
    }
}

/// Methods of a class that are named apart have functions that are named apart.
pub proof fn law_methods_have_symbols_of_their_own(
    class_name: Seq<char>,
    first: Seq<char>,
    second: Seq<char>,
)
    requires
        symbol_text(class_name, first) == symbol_text(class_name, second),
    ensures
        first == second,
{
    let head = "Java_"@ + text::replaced(class_name, '.', '_') + "_"@;
    assert(symbol_text(class_name, first).skip(head.len() as int) =~= first);
    assert(symbol_text(class_name, second).skip(head.len() as int) =~= second);
}

/// No dot is left in a descriptor.
pub proof fn law_descriptor_has_no_dots(name: Seq<char>)
    ensures
        forall|i: int| 0 <= i < descriptor(name).len() ==> #[trigger] descriptor(name)[i] != '.',
{
    reveal_strlit("V");
    reveal_strlit("Z");
    reveal_strlit("B");
    reveal_strlit("C");
    reveal_strlit("S");
    reveal_strlit("I");
    reveal_strlit("J");
    reveal_strlit("F");
    reveal_strlit("D");
    reveal_strlit("L");
    reveal_strlit(";");
}

/// The modifiers are those of a native method exactly if the bit of weight 256 is
/// set in them.
pub proof fn law_native_is_a_bit(modifiers: i32)
    ensures
        native(modifiers) <==> modifiers as int / 256 % 2 == 1,
{
    let bits: u32 = modifiers as u32;
    assert(modifiers & 0x0100i32 != 0 <==> (modifiers as u32) / 256 % 2 == 1) by (bit_vector);
    assert(modifiers >= 0 ==> modifiers as u32 == modifiers) by (bit_vector);
    assert(modifiers < 0 ==> modifiers as u32 == modifiers + 0x1_0000_0000) by (bit_vector);
}

/// The descriptors of types stand one after the other in the order of the types.
pub proof fn law_descriptors_follow_each_other(first: Seq<String>, second: Seq<String>)
    ensures
        first.len() == 0 ==> descriptors(first) == Seq::<char>::empty(),
        first.len() == 1 ==> descriptors(first) == descriptor(first[0]@),
        descriptors(first + second) == descriptors(first) + descriptors(second),
    decreases second.len(),
{
    if first.len() == 1 {
        assert(first.drop_last() =~= Seq::<String>::empty());
        reveal_with_fuel(descriptors, 2);
        assert(descriptors(first) =~= descriptor(first[0]@));
    }
    if second.len() == 0 {
        assert(first + second =~= first);
        assert(descriptors(first) + descriptors(second) =~= descriptors(first));
    } else {
        law_descriptors_follow_each_other(first, second.drop_last());
        assert((first + second).drop_last() =~= first + second.drop_last());
        assert((first + second).last() == second.last());
        assert(descriptors(first + second) =~= descriptors(first) + descriptors(second));
    }
}

/// A signature is the descriptors of what a method takes, in brackets, and that of
/// what it returns.
pub proof fn law_signature_has_all_types(parameters: Seq<String>, returned: Seq<char>)
    ensures
        signature_text(parameters, returned) == "("@ + descriptors(parameters) + ")"@ + descriptor(
            returned,
        ),
{
}

/// The name of a class stands in the descriptor with slashes for dots; that of an
/// array alone, that of another class between `L` and `;`.
pub proof fn law_descriptor_keeps_the_name(name: Seq<char>)
    requires
        primitive_descriptor(name) is None,
    ensures
        ({
            let start: int = if name.len() > 0 && name[0] == '[' {
                0
            } else {
                1
            };
            &&& descriptor(name).len() == name.len() + 2 * start
            &&& forall|i: int|
                0 <= i < name.len() ==> #[trigger] descriptor(name)[i + start] == if name[i]
                    == '.' {
                    '/'
                } else {
                    name[i]
                }
            &&& start == 1 ==> descriptor(name)[0] == 'L' && descriptor(name).last() == ';'
        }),
{
    reveal_strlit("L");
    reveal_strlit(";");
}

/// The name of a function starts with `Java_`, then comes the class with
/// underscores for dots, then an underscore and the method.
pub proof fn law_symbol_names_class_and_method(class_name: Seq<char>, method: Seq<char>)
    ensures
        symbol_text(class_name, method).len() == 6 + class_name.len() + method.len(),
        symbol_text(class_name, method).take(5) == "Java_"@,
        forall|i: int|
            0 <= i < class_name.len() ==> #[trigger] symbol_text(class_name, method)[i + 5] == if
            class_name[i] == '.' {
                '_'
            } else {
                class_name[i]
            },
        symbol_text(class_name, method)[5 + class_name.len() as int] == '_',
        symbol_text(class_name, method).skip(6 + class_name.len() as int) == method,
{
    reveal_strlit("Java_");
    reveal_strlit("_");
    assert(symbol_text(class_name, method).take(5) =~= "Java_"@);
    assert(symbol_text(class_name, method).skip(6 + class_name.len() as int) =~= method);
}

/// A table is made exactly if there are native methods and each has a function,
/// and it then holds every method as it was found, in order.
pub proof fn law_table_is_the_methods(
    class_name: Seq<char>,
    methods: Seq<Binding>,
    table: Result<Vec<Binding>, String>,
)
    requires
        table_of(class_name, methods, table),
    ensures
        table is Ok <==> methods.len() > 0 && forall|i: int|
            0 <= i < methods.len() ==> (#[trigger] methods[i]).address != 0,
        table is Ok ==> table->Ok_0@.len() == methods.len() && forall|i: int|
            0 <= i < methods.len() ==> #[trigger] table->Ok_0@[i] == methods[i],
{
    law_all_or_nothing(class_name, methods, table, Ok(()), Ok(()));
}

} // verus!
