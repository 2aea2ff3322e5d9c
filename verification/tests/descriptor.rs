use just::descriptor::Descriptor;
use just::error::Error;

fn object(name: &str) -> Descriptor {
    Descriptor::Object(name.to_string())
}

fn array(inner: Descriptor) -> Descriptor {
    Descriptor::Array(Box::new(inner))
}

fn function(parameters: Vec<Descriptor>, result: Descriptor) -> Descriptor {
    Descriptor::Function(parameters, Box::new(result))
}

#[test]
fn each_letter_is_its_primitive_type() {
    assert_eq!(Descriptor::parse("B"), Ok((Descriptor::Byte, String::new())));
    assert_eq!(Descriptor::parse("C"), Ok((Descriptor::Char, String::new())));
    assert_eq!(Descriptor::parse("D"), Ok((Descriptor::Double, String::new())));
    assert_eq!(Descriptor::parse("F"), Ok((Descriptor::Float, String::new())));
    assert_eq!(Descriptor::parse("I"), Ok((Descriptor::Int, String::new())));
    assert_eq!(Descriptor::parse("J"), Ok((Descriptor::Long, String::new())));
    assert_eq!(Descriptor::parse("S"), Ok((Descriptor::Short, String::new())));
    assert_eq!(Descriptor::parse("Z"), Ok((Descriptor::Boolean, String::new())));
    assert_eq!(Descriptor::parse("V"), Ok((Descriptor::Void, String::new())));
}

#[test]
fn a_class_name_runs_to_the_semicolon() {
    assert_eq!(
        Descriptor::parse("Ljava/lang/String;"),
        Ok((object("java/lang/String"), String::new()))
    );
    assert_eq!(Descriptor::parse("L;"), Ok((object(""), String::new())));
    assert_eq!(Descriptor::parse("La;b;"), Ok((object("a"), "b;".to_string())));
}

#[test]
fn parse_gives_back_what_it_did_not_take() {
    assert_eq!(Descriptor::parse("IJ"), Ok((Descriptor::Int, "J".to_string())));
    assert_eq!(
        Descriptor::parse("Ljava/lang/Object;[I)V"),
        Ok((object("java/lang/Object"), "[I)V".to_string()))
    );
    assert_eq!(Descriptor::parse("[[Drest"), Ok((array(array(Descriptor::Double)), "rest".to_string())));
    assert_eq!(Descriptor::parse("()Vx"), Ok((function(vec![], Descriptor::Void), "x".to_string())));
}

#[test]
fn arrays_nest() {
    assert_eq!(Descriptor::parse("[I"), Ok((array(Descriptor::Int), String::new())));
    assert_eq!(
        Descriptor::parse("[[[Ljava/lang/Object;"),
        Ok((array(array(array(object("java/lang/Object")))), String::new()))
    );
}

#[test]
fn a_method_has_parameters_and_a_result() {
    assert_eq!(Descriptor::parse("()V"), Ok((function(vec![], Descriptor::Void), String::new())));
    assert_eq!(
        Descriptor::parse("(ILjava/lang/String;[J)Z"),
        Ok((
            function(
                vec![Descriptor::Int, object("java/lang/String"), array(Descriptor::Long)],
                Descriptor::Boolean
            ),
            String::new()
        ))
    );
    assert_eq!(
        Descriptor::parse("([Ljava/lang/String;)V"),
        Ok((function(vec![array(object("java/lang/String"))], Descriptor::Void), String::new()))
    );
}

#[test]
fn what_does_not_follow_the_grammar_is_refused() {
    assert_eq!(Descriptor::parse(""), Err(Error::InvalidDescriptor));
    assert_eq!(Descriptor::parse("X"), Err(Error::InvalidDescriptor));
    assert_eq!(Descriptor::parse("i"), Err(Error::InvalidDescriptor));
    assert_eq!(Descriptor::parse(")"), Err(Error::InvalidDescriptor));
    assert_eq!(Descriptor::parse(";"), Err(Error::InvalidDescriptor));
    assert_eq!(Descriptor::parse("Ljava/lang/String"), Err(Error::InvalidDescriptor));
    assert_eq!(Descriptor::parse("L"), Err(Error::InvalidDescriptor));
    assert_eq!(Descriptor::parse("["), Err(Error::InvalidDescriptor));
    assert_eq!(Descriptor::parse("[X"), Err(Error::InvalidDescriptor));
    assert_eq!(Descriptor::parse("("), Err(Error::InvalidDescriptor));
    assert_eq!(Descriptor::parse("(I"), Err(Error::InvalidDescriptor));
    assert_eq!(Descriptor::parse("(I)"), Err(Error::InvalidDescriptor));
    assert_eq!(Descriptor::parse("(Q)V"), Err(Error::InvalidDescriptor));
    assert_eq!(Descriptor::parse("(I)Q"), Err(Error::InvalidDescriptor));
}

#[test]
fn serialize_writes_the_grammar() {
    assert_eq!(Descriptor::Byte.serialize(), "B");
    assert_eq!(Descriptor::Char.serialize(), "C");
    assert_eq!(Descriptor::Double.serialize(), "D");
    assert_eq!(Descriptor::Float.serialize(), "F");
    assert_eq!(Descriptor::Int.serialize(), "I");
    assert_eq!(Descriptor::Long.serialize(), "J");
    assert_eq!(Descriptor::Short.serialize(), "S");
    assert_eq!(Descriptor::Boolean.serialize(), "Z");
    assert_eq!(Descriptor::Void.serialize(), "V");
    assert_eq!(object("java/io/PrintStream").serialize(), "Ljava/io/PrintStream;");
    assert_eq!(array(array(Descriptor::Int)).serialize(), "[[I");
    assert_eq!(function(vec![], Descriptor::Void).serialize(), "()V");
    assert_eq!(
        function(vec![object("java/lang/String"), Descriptor::Long, array(Descriptor::Byte)], object("A"))
            .serialize(),
        "(Ljava/lang/String;J[B)LA;"
    );
}

#[test]
fn the_text_of_a_descriptor_parses_to_it() {
    let samples = vec![
        Descriptor::Int,
        Descriptor::Void,
        object("java/lang/Object"),
        object("caf\u{e9}/Th\u{e9}"),
        array(array(Descriptor::Short)),
        function(vec![], Descriptor::Void),
        function(
            vec![Descriptor::Double, array(object("a/B")), function(vec![Descriptor::Int], Descriptor::Void)],
            array(Descriptor::Char),
        ),
    ];
    for d in samples {
        let text = d.serialize();
        assert_eq!(Descriptor::parse(&text), Ok((d, String::new())));
    }
}

#[test]
fn a_text_that_parses_whole_is_written_back_the_same() {
    for text in ["I", "[[J", "Ljava/lang/String;", "()V", "(II)I", "([Ljava/lang/String;)V", "((I)V[Z)[[LX;"] {
        let (d, rest) = Descriptor::parse(text).unwrap();
        assert_eq!(rest, "");
        assert_eq!(d.serialize(), text);
    }
}

#[test]
fn characters_outside_ascii_count_as_one() {
    assert_eq!(
        Descriptor::parse("L\u{e9}t\u{e9};\u{fc}"),
        Ok((object("\u{e9}t\u{e9}"), "\u{fc}".to_string()))
    );
}
