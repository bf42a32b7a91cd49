use akaibu::batch::{first_failure, plan_input, InputPlan};
use akaibu::error::AkaibuError;
use akaibu::magic::Archive;
use akaibu::preview::PreviewableResourceMagic;
use akaibu::resource::ResourceMagic;
use akaibu::scheme::{select_scheme, Scheme};

fn padded(sig: &[u8]) -> Vec<u8> {
    let mut v = sig.to_vec();
    v.resize(32, 0xAA);
    v
}

#[test]
fn every_signature_classifies_as_its_family() {
    assert_eq!(Archive::parse(&padded(b"ACV1")), Archive::ACV1);
    assert_eq!(Archive::parse(&padded(b"CPZ7")), Archive::CPZ7);
    assert_eq!(Archive::parse(&padded(b"GXP\x00")), Archive::GXP);
    assert_eq!(Archive::parse(&padded(b"pf8")), Archive::PF8);
    assert_eq!(Archive::parse(&padded(b"YPF\x00")), Archive::YPF);
    assert_eq!(Archive::parse(&padded(b"BURIKO ARC20")), Archive::BURIKO);
    assert_eq!(Archive::parse(&padded(b"ESC-ARC2")), Archive::EscArc2);
    assert_eq!(Archive::parse(&padded(&[0xc1, 0xf2, 0x5e, 0x79])), Archive::Malie);
    assert_eq!(Archive::parse(&padded(&[0x7f, 0x4d, 0x8f, 0xe9])), Archive::Malie);
}

#[test]
fn exact_signature_without_tail_classifies() {
    assert_eq!(Archive::parse(b"pf8"), Archive::PF8);
    assert_eq!(Archive::parse(b"BURIKO ARC20"), Archive::BURIKO);
}

#[test]
fn short_and_empty_buffers_are_not_recognized() {
    assert_eq!(Archive::parse(&[]), Archive::NotRecognized);
    assert_eq!(Archive::parse(b"pf"), Archive::NotRecognized);
    assert_eq!(Archive::parse(b"BURIKO ARC2"), Archive::NotRecognized);
    assert_eq!(Archive::parse(&padded(b"ZZZZ")), Archive::NotRecognized);
}

#[test]
fn buriko_header_is_universal() {
    let a = Archive::parse(&padded(b"BURIKO ARC20"));
    assert_eq!(a, Archive::BURIKO);
    assert!(a.is_universal());
}

#[test]
fn universality_of_each_family() {
    assert!(!Archive::ACV1.is_universal());
    assert!(!Archive::CPZ7.is_universal());
    assert!(Archive::GXP.is_universal());
    assert!(Archive::PF8.is_universal());
    assert!(Archive::YPF.is_universal());
    assert!(Archive::EscArc2.is_universal());
    assert!(!Archive::Malie.is_universal());
    assert!(Archive::Silky.is_universal());
    assert!(!Archive::NotRecognized.is_universal());
}

#[test]
fn scheme_registry_lists() {
    assert_eq!(Archive::PF8.get_schemes(), vec![Scheme::Pf8]);
    assert_eq!(Archive::BURIKO.get_schemes(), vec![Scheme::Buriko]);
    assert!(Archive::NotRecognized.get_schemes().is_empty());
    let all = Archive::get_all_schemes();
    assert_eq!(
        all,
        vec![
            Scheme::Acv1,
            Scheme::Cpz7,
            Scheme::Gxp,
            Scheme::Pf8,
            Scheme::Ypf,
            Scheme::Buriko,
            Scheme::EscArc2,
            Scheme::Malie,
            Scheme::Silky
        ]
    );
    assert_eq!(Scheme::Buriko.get_name(), "BURIKO ARC20");
}

#[test]
fn scheme_selection() {
    let list = vec![Scheme::Acv1, Scheme::Pf8];
    assert_eq!(select_scheme(&list, true, None), Ok(Scheme::Acv1));
    assert_eq!(select_scheme(&list, false, Some(1)), Ok(Scheme::Pf8));
    assert_eq!(select_scheme(&list, false, Some(2)), Err(AkaibuError::InvalidSelection));
    assert_eq!(select_scheme(&list, false, None), Err(AkaibuError::InvalidSelection));
    assert_eq!(select_scheme(&vec![], true, Some(0)), Err(AkaibuError::InvalidSelection));
}

#[test]
fn resource_signatures() {
    assert_eq!(ResourceMagic::parse_magic(b"TLG0.0\x00sds\x1a...."), ResourceMagic::TLG0);
    assert_eq!(ResourceMagic::parse_magic(b"TLG5.0\x00raw\x1a...."), ResourceMagic::TLG5);
    assert_eq!(ResourceMagic::parse_magic(b"TLG6.0\x00raw\x1a...."), ResourceMagic::TLG6);
    assert_eq!(ResourceMagic::parse_magic(b"TLG6.0\x00raw"), ResourceMagic::Unrecognized);
    assert_eq!(ResourceMagic::parse_magic(&[]), ResourceMagic::Unrecognized);
}

#[test]
fn previewable_signatures() {
    assert_eq!(
        PreviewableResourceMagic::parse_magic(&[137, 80, 78, 71, 13, 10, 26, 10, 0]),
        PreviewableResourceMagic::PNG
    );
    assert_eq!(
        PreviewableResourceMagic::parse_magic(&[135, 80, 78, 71, 13, 10, 26, 10]),
        PreviewableResourceMagic::PNG
    );
    assert_eq!(PreviewableResourceMagic::parse_magic(&[255, 216, 255, 1]), PreviewableResourceMagic::JPG);
    assert_eq!(PreviewableResourceMagic::parse_magic(b"BM.."), PreviewableResourceMagic::BMP);
    assert_eq!(PreviewableResourceMagic::parse_magic(&[0, 0, 1, 0, 5]), PreviewableResourceMagic::ICO);
    assert_eq!(PreviewableResourceMagic::parse_magic(b"RIFF...."), PreviewableResourceMagic::RIFF);
    assert_eq!(PreviewableResourceMagic::parse_magic(b"B"), PreviewableResourceMagic::Unrecognized);
}

#[test]
fn unrecognized_header_reports_its_bytes() {
    let header = vec![0x01, 0x02, 0x03, 0x04];
    assert_eq!(
        plan_input(&header, false),
        Err(AkaibuError::UnrecognizedFormat(vec![0x01, 0x02, 0x03, 0x04]))
    );
    assert_eq!(
        plan_input(&header, true),
        Err(AkaibuError::UnrecognizedFormat(vec![0x01, 0x02, 0x03, 0x04]))
    );
}

#[test]
fn input_plans() {
    assert_eq!(plan_input(&padded(b"pf8"), false), Ok(InputPlan::Container(Archive::PF8)));
    assert_eq!(
        plan_input(b"TLG6.0\x00raw\x1a....", true),
        Ok(InputPlan::Resource(ResourceMagic::TLG6))
    );
    assert_eq!(
        plan_input(b"TLG6.0\x00raw\x1a....", false),
        Err(AkaibuError::UnrecognizedFormat(b"TLG6.0\x00raw\x1a....".to_vec()))
    );
}

#[test]
fn batch_reports_lowest_failed_index() {
    let outcomes: Vec<Result<(), &str>> = vec![Ok(()), Err("second"), Ok(()), Err("fourth")];
    assert_eq!(first_failure(outcomes), Err((1, "second")));
}

#[test]
fn batch_all_succeeded() {
    let outcomes: Vec<Result<(), &str>> = vec![Ok(()), Ok(()), Ok(())];
    assert_eq!(first_failure(outcomes), Ok(3));
    let none: Vec<Result<(), &str>> = vec![];
    assert_eq!(first_failure(none), Ok(0));
}
