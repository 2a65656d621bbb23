use inference_bridge::utils::{get_jni_signature, MethodType, ReturnMethodType};

#[test]
fn primitive_parameter_types() {
    assert_eq!(MethodType::Bool.to_jni_type(), "Z");
    assert_eq!(MethodType::Char.to_jni_type(), "C");
    assert_eq!(MethodType::I32.to_jni_type(), "I");
    assert_eq!(MethodType::I64.to_jni_type(), "L");
    assert_eq!(MethodType::F32.to_jni_type(), "F");
    assert_eq!(MethodType::F64.to_jni_type(), "D");
}

#[test]
fn class_parameter_types() {
    assert_eq!(MethodType::String.to_jni_type(), "Ljava/lang/String;");
    assert_eq!(
        MethodType::Qualified("java/util/List".to_string()).to_jni_type(),
        "Ljava/util/List;"
    );
    assert_eq!(MethodType::Qualified(String::new()).to_jni_type(), "L;");
}

#[test]
fn array_parameter_types() {
    assert_eq!(MethodType::Arr(Box::new(MethodType::I32)).to_jni_type(), "[I");
    assert_eq!(
        MethodType::Arr(Box::new(MethodType::Arr(Box::new(MethodType::String)))).to_jni_type(),
        "[[Ljava/lang/String;"
    );
}

#[test]
fn return_types() {
    assert_eq!(ReturnMethodType::Void.to_jni_type(), "V");
    assert_eq!(ReturnMethodType::Bool.to_jni_type(), "Z");
    assert_eq!(ReturnMethodType::Char.to_jni_type(), "C");
    assert_eq!(ReturnMethodType::I32.to_jni_type(), "I");
    assert_eq!(ReturnMethodType::I64.to_jni_type(), "L");
    assert_eq!(ReturnMethodType::F32.to_jni_type(), "F");
    assert_eq!(ReturnMethodType::F64.to_jni_type(), "D");
    assert_eq!(ReturnMethodType::String.to_jni_type(), "Ljava/lang/String;");
    assert_eq!(ReturnMethodType::Qualified("a/B".to_string()).to_jni_type(), "La/B;");
    assert_eq!(ReturnMethodType::Arr(Box::new(MethodType::F64)).to_jni_type(), "[D");
}

#[test]
fn signature_without_parameters() {
    assert_eq!(get_jni_signature(&[], ReturnMethodType::Void), "()V");
    assert_eq!(get_jni_signature(&[], ReturnMethodType::String), "()Ljava/lang/String;");
}

#[test]
fn signature_with_parameters_in_order() {
    assert_eq!(get_jni_signature(&[MethodType::String], ReturnMethodType::Void), "(Ljava/lang/String;)V");
    assert_eq!(
        get_jni_signature(
            &[MethodType::Arr(Box::new(MethodType::I32)), MethodType::I32, MethodType::I32],
            ReturnMethodType::Void
        ),
        "([III)V"
    );
    assert_eq!(
        get_jni_signature(
            &[MethodType::Bool, MethodType::Qualified("x/Y".to_string()), MethodType::F32],
            ReturnMethodType::Arr(Box::new(MethodType::Char))
        ),
        "(ZLx/Y;F)[C"
    );
}
