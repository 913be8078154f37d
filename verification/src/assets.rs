use vstd::prelude::*;

verus! {

/// The families of devices whose external flash can be reached; each has
/// its own firmware image and target configuration template.
#[allow(non_camel_case_types)]
#[derive(Copy, Clone, Debug, PartialEq, Eq, Structural)]
pub enum DeviceFamily {
    CC13x0,
    CC13x1_CC26x1,
    CC26x0,
    CC26x0R2,
    CC13x2_CC26x2,
    CC13x2x7_CC26x2x7,
    CC13x4_CC26x4,
}

/// The file name of a family's target configuration template.
pub open spec fn ccxml_template_name(family: DeviceFamily) -> Seq<char> {
    match family {
        DeviceFamily::CC13x0 => "template_cc13x0.ccxml"@,
        DeviceFamily::CC13x1_CC26x1 => "template_cc13x1_cc26x1.ccxml"@,
        DeviceFamily::CC26x0 => "template_cc26x0.ccxml"@,
        DeviceFamily::CC26x0R2 => "template_cc26x0r2.ccxml"@,
        DeviceFamily::CC13x2_CC26x2 => "template_cc13x2_cc26x2.ccxml"@,
        DeviceFamily::CC13x2x7_CC26x2x7 => "template_cc13x2_cc26x2.ccxml"@,
        DeviceFamily::CC13x4_CC26x4 => "template_cc13x4_cc26x4.ccxml"@,
    }
}

/// The file name of a family's firmware image.
pub open spec fn firmware_name(family: DeviceFamily) -> Seq<char> {
    match family {
        DeviceFamily::CC13x0 => "cc13x0.bin"@,
        DeviceFamily::CC13x1_CC26x1 => "cc13x1_cc26x1.bin"@,
        DeviceFamily::CC26x0 => "cc26x0.bin"@,
        DeviceFamily::CC26x0R2 => "cc26x0r2.bin"@,
        DeviceFamily::CC13x2_CC26x2 => "cc13x2_cc26x2.bin"@,
        DeviceFamily::CC13x2x7_CC26x2x7 => "cc13x2x7_cc26x2x7.bin"@,
        DeviceFamily::CC13x4_CC26x4 => "cc13x4_cc26x4.bin"@,
    }
}

/// Where a family's target configuration template lies among the embedded
/// assets.
pub fn ccxml_template_path(family: DeviceFamily) -> (res: String)
    ensures
        res@ == "ccxml/"@ + ccxml_template_name(family),
{
    let file = match family {
            DeviceFamily::CC13x0 => "template_cc13x0.ccxml",
            DeviceFamily::CC13x1_CC26x1 => "template_cc13x1_cc26x1.ccxml",
            DeviceFamily::CC26x0 => "template_cc26x0.ccxml",
            DeviceFamily::CC26x0R2 => "template_cc26x0r2.ccxml",
            DeviceFamily::CC13x2_CC26x2 => "template_cc13x2_cc26x2.ccxml",
            DeviceFamily::CC13x2x7_CC26x2x7 => "template_cc13x2_cc26x2.ccxml",
            DeviceFamily::CC13x4_CC26x4 => "template_cc13x4_cc26x4.ccxml",
    };
    let mut path = "ccxml/".to_owned();
    path.append(file);
    path
}

/// Where a family's firmware image lies among the embedded assets.
pub fn firmware_path(family: DeviceFamily) -> (res: String)
    ensures
        res@ == "fw/"@ + firmware_name(family),
{
    let file = match family {
            DeviceFamily::CC13x0 => "cc13x0.bin",
            DeviceFamily::CC13x1_CC26x1 => "cc13x1_cc26x1.bin",
            DeviceFamily::CC26x0 => "cc26x0.bin",
            DeviceFamily::CC26x0R2 => "cc26x0r2.bin",
            DeviceFamily::CC13x2_CC26x2 => "cc13x2_cc26x2.bin",
            DeviceFamily::CC13x2x7_CC26x2x7 => "cc13x2x7_cc26x2x7.bin",
            DeviceFamily::CC13x4_CC26x4 => "cc13x4_cc26x4.bin",
    };
    let mut path = "fw/".to_owned();
    path.append(file);
    path
}

} // verus!
