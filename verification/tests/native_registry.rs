use plugin_memory::jvm::takes_requests;
use plugin_memory::native_registry::{
    admit_class, class_to_descriptor, is_native, register_natives_for_class, runtime_exception,
    settle_registration, spell_signature, symbol_name, Binding, NativeBridgeRegistrar,
};

fn texts(names: &[&str]) -> Vec<String> {
    names.iter().map(|name| name.to_string()).collect()
}

fn binding(name: &str, signature: &str, address: usize) -> Binding {
    Binding { name: name.to_string(), signature: signature.to_string(), address }
}

/// Name, signature and address of each binding, or the error.
fn table(class: &str, methods: Vec<Binding>) -> Result<Vec<(String, String, usize)>, String> {
    let bound = register_natives_for_class(class, &methods)?;
    Ok(bound.into_iter().map(|b| (b.name, b.signature, b.address)).collect())
}

#[test]
fn descriptors_of_classes() {
    let expected = [
        ("void", "V"),
        ("boolean", "Z"),
        ("byte", "B"),
        ("char", "C"),
        ("short", "S"),
        ("int", "I"),
        ("long", "J"),
        ("float", "F"),
        ("double", "D"),
        ("java.lang.String", "Ljava/lang/String;"),
        ("[B", "[B"),
        ("[Ljava.lang.String;", "[Ljava/lang/String;"),
        ("integer", "Linteger;"),
        ("", "L;"),
    ];
    for (name, descriptor) in expected {
        assert_eq!(class_to_descriptor(name), descriptor);
        assert!(!class_to_descriptor(name).contains('.'));
    }
}

#[test]
fn signatures_of_methods() {
    assert_eq!(spell_signature(&texts(&[]), "java.lang.String"), "()Ljava/lang/String;");
    assert_eq!(spell_signature(&texts(&["int"]), "void"), "(I)V");
    assert_eq!(
        spell_signature(
            &texts(&[
                "long",
                "java.lang.String",
                "[B",
                "boolean",
                "int",
                "long",
                "org.opensearch.core.action.ActionListener",
            ]),
            "void"
        ),
        "(JLjava/lang/String;[BZIJLorg/opensearch/core/action/ActionListener;)V"
    );
}

#[test]
fn names_of_functions() {
    assert_eq!(
        symbol_name("org.opensearch.datafusion.jni.NativeBridge", "getVersionInfo"),
        "Java_org_opensearch_datafusion_jni_NativeBridge_getVersionInfo"
    );
    assert_ne!(symbol_name("a.B", "c"), symbol_name("a.B", "d"));
}

#[test]
fn native_methods_have_a_bit_set() {
    assert!(is_native(0x0100));
    assert!(is_native(0x0109));
    assert!(is_native(-1));
    assert!(!is_native(0x0009));
    assert!(!is_native(0));
}

#[test]
fn all_native_methods_are_bound_in_order() {
    assert_eq!(
        table(
            "org.opensearch.datafusion.jni.NativeBridge",
            vec![
                binding("getVersionInfo", "()Ljava/lang/String;", 0x1000),
                binding("initTokioRuntimeManager", "(I)V", 0x2000),
            ]
        ),
        Ok(vec![
            ("getVersionInfo".to_string(), "()Ljava/lang/String;".to_string(), 0x1000),
            ("initTokioRuntimeManager".to_string(), "(I)V".to_string(), 0x2000),
        ])
    );
}

#[test]
fn all_native_methods_need_a_function() {
    let class = "a.b.Bridge";
    assert_eq!(
        table(
            class,
            vec![binding("x", "()V", 8), binding("y", "()V", 0), binding("z", "()V", 0)]
        ),
        Err("Symbol not found: Java_a_b_Bridge_y — is the #[no_mangle] function defined in Rust?"
            .to_string())
    );
    assert_eq!(table(class, vec![]), Err("No native methods in a.b.Bridge".to_string()));
}

#[test]
fn a_class_is_bound_if_the_machine_says_so() {
    let class = "a.b.Bridge";
    assert_eq!(settle_registration(class, &Ok(())), Ok(()));
    assert_eq!(
        settle_registration(class, &Err("JNI call failed".to_string())),
        Err("RegisterNatives failed for a.b.Bridge: JNI call failed".to_string())
    );
}

#[test]
fn only_registered_classes_are_admitted() {
    let registrars = vec![
        NativeBridgeRegistrar { class_name: "a.A" },
        NativeBridgeRegistrar { class_name: "b.B" },
    ];
    assert!(matches!(admit_class(Ok("b.B".to_string()), &registrars), Ok(name) if name == "b.B"));
    match admit_class(Ok("c.C".to_string()), &registrars) {
        Ok(_) => panic!("admitted"),
        Err(exception) => {
            assert_eq!(exception.class, "java/lang/IllegalArgumentException");
            assert_eq!(
                exception.message,
                "No native registrar for: c.C. Did the plugin call register_native_bridge!()?"
            );
        }
    }
    match admit_class(Err("gone".to_string()), &registrars) {
        Ok(_) => panic!("admitted"),
        Err(exception) => {
            assert_eq!(exception.class, "java/lang/RuntimeException");
            assert_eq!(exception.message, "gone");
        }
    }
    assert_eq!(runtime_exception("x".to_string()).class, "java/lang/RuntimeException");
}

#[test]
fn nothing_is_asked_while_an_exception_is_pending() {
    assert!(takes_requests(&Ok(false)));
    assert!(!takes_requests(&Ok(true)));
    assert!(!takes_requests(&Err("detached".to_string())));
}
