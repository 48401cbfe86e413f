//! Image name selection for the packaging commands. The docker build and
//! push invocations themselves run processes and live in the shell around
//! the library.

use vstd::prelude::*;
use vstd::string::*;

verus! {

pub open spec fn spec_default_image_without_tag() -> Seq<char> {
    "docker.io/jadkhaddad/openfaas_functions_operato_rs"@
}

/// The default image reference, tagged with this crate's version.
pub fn default_image_with_tag() -> (r: String)
    ensures
        r@ == spec_default_image_without_tag() + ":0.1.0"@,
{
    "docker.io/jadkhaddad/openfaas_functions_operato_rs".to_owned().concat(":0.1.0")
}

/// The image a build should produce: the packaged default when asked for,
/// otherwise the given name.
pub fn determin_image_for_build(image_name: String, use_package_version: bool) -> (r: String)
    ensures
        use_package_version ==> r@ == spec_default_image_without_tag() + ":0.1.0"@,
        !use_package_version ==> r@ == image_name@,
{
    if use_package_version {
        default_image_with_tag()
    } else {
        image_name
    }
}

/// The image the deploy commands should reference: the default image under
/// the given version when one is named, otherwise the given name.
pub fn determin_image(image_name: String, image_version: Option<String>) -> (r: String)
    ensures
        match image_version {
            Some(v) => r@ == spec_default_image_without_tag() + ":"@ + v@,
            None => r@ == image_name@,
        },
{
    match image_version {
        Some(v) => {
            let mut s = "docker.io/jadkhaddad/openfaas_functions_operato_rs".to_owned();
            s.append(":");
            s.append(v.as_str());
            proof {
                assert(s@ =~= spec_default_image_without_tag() + ":"@ + v@);
            }
            s
        },
        None => image_name,
    }
}

} // verus!
