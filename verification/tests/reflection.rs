use pt::reflection::{has_flag, BxDFFlag, ALL, DIFFUSE, GLOSSY, REFLECTION, SPECULAR, TRANSMISSION};

#[test]
fn test_has_type() {
    let flag: BxDFFlag = REFLECTION | DIFFUSE;
    assert!(has_flag(flag, REFLECTION));
    assert!(has_flag(flag, DIFFUSE));
    assert_eq!(has_flag(flag, TRANSMISSION), false);
    assert_eq!(has_flag(flag, GLOSSY), false);
    assert_eq!(has_flag(flag, SPECULAR), false);
}

#[test]
fn has_flag_combinations() {
    assert_eq!(ALL, 31);
    assert!(has_flag(ALL, REFLECTION | SPECULAR));
    assert!(has_flag(REFLECTION | DIFFUSE, REFLECTION | DIFFUSE));
    assert!(!has_flag(REFLECTION, REFLECTION | DIFFUSE));
    assert!(has_flag(0, 0));
    assert!(!has_flag(ALL, 32));
}
