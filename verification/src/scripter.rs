//! The installer script: a template with the product's details filled in.
use vstd::prelude::*;
use vstd::string::*;
use crate::text::{decimal, quoted, replace, replace_all, sh_quote, to_decimal};

verus! {

/// The version of the installer format.
pub const RUST_INSTALLER_VERSION: u32 = 3;

/// What goes into an installer script.
#[derive(Debug)]
pub struct Scripter {
    /// The name of the product, for display.
    pub product_name: String,
    /// The directory under lib/ where the manifest lives.
    pub rel_manifest_dir: String,
    /// The string to print after successful installation.
    pub success_message: String,
    /// Places to look for legacy manifests to uninstall.
    pub legacy_manifest_dirs: String,
    /// The name of the output script.
    pub output_script: String,
}

/// The script for a product: the template with its placeholders replaced,
/// dashes in the product name and success message written as spaces, and
/// every value but the manifest directory quoted for the shell.
pub open spec fn script_text(
    product_name: Seq<char>,
    rel_manifest_dir: Seq<char>,
    success_message: Seq<char>,
    legacy_manifest_dirs: Seq<char>,
    template: Seq<char>,
) -> Seq<char> {
    let product = replace_all(product_name, "-"@, " "@);
    let message = replace_all(success_message, "-"@, " "@);
    let t1 = replace_all(template, "%%TEMPLATE_PRODUCT_NAME%%"@, quoted(product));
    let t2 = replace_all(t1, "%%TEMPLATE_REL_MANIFEST_DIR%%"@, rel_manifest_dir);
    let t3 = replace_all(t2, "%%TEMPLATE_SUCCESS_MESSAGE%%"@, quoted(message));
    let t4 = replace_all(t3, "%%TEMPLATE_LEGACY_MANIFEST_DIRS%%"@, quoted(legacy_manifest_dirs));
    replace_all(
        t4,
        "%%TEMPLATE_RUST_INSTALLER_VERSION%%"@,
        quoted(decimal(RUST_INSTALLER_VERSION as nat)),
    )
}

impl Scripter {
    /// The script text for `template`.
    pub open spec fn spec_script(&self, template: Seq<char>) -> Seq<char> {
        script_text(
            self.product_name@,
            self.rel_manifest_dir@,
            self.success_message@,
            self.legacy_manifest_dirs@,
            template,
        )
    }

    /// The default settings.
    pub fn default() -> (r: Scripter)
        ensures
            r.product_name@ == "Product"@,
            r.rel_manifest_dir@ == "manifestlib"@,
            r.success_message@ == "Installed."@,
            r.legacy_manifest_dirs@ == ""@,
            r.output_script@ == "install.sh"@,
    {
        Scripter {
            product_name: String::from_str("Product"),
            rel_manifest_dir: String::from_str("manifestlib"),
            success_message: String::from_str("Installed."),
            legacy_manifest_dirs: String::from_str(""),
            output_script: String::from_str("install.sh"),
        }
    }

    /// Sets the product name.
    pub fn product_name(&mut self, value: String)
        ensures
            final(self).product_name == value,
            final(self).rel_manifest_dir == old(self).rel_manifest_dir,
            final(self).success_message == old(self).success_message,
            final(self).legacy_manifest_dirs == old(self).legacy_manifest_dirs,
            final(self).output_script == old(self).output_script,
    {
        self.product_name = value;
    }

    /// Sets the manifest directory.
    pub fn rel_manifest_dir(&mut self, value: String)
        ensures
            final(self).product_name == old(self).product_name,
            final(self).rel_manifest_dir == value,
            final(self).success_message == old(self).success_message,
            final(self).legacy_manifest_dirs == old(self).legacy_manifest_dirs,
            final(self).output_script == old(self).output_script,
    {
        self.rel_manifest_dir = value;
    }

    /// Sets the success message.
    pub fn success_message(&mut self, value: String)
        ensures
            final(self).product_name == old(self).product_name,
            final(self).rel_manifest_dir == old(self).rel_manifest_dir,
            final(self).success_message == value,
            final(self).legacy_manifest_dirs == old(self).legacy_manifest_dirs,
            final(self).output_script == old(self).output_script,
    {
        self.success_message = value;
    }

    /// Sets the legacy manifest directories.
    pub fn legacy_manifest_dirs(&mut self, value: String)
        ensures
            final(self).product_name == old(self).product_name,
            final(self).rel_manifest_dir == old(self).rel_manifest_dir,
            final(self).success_message == old(self).success_message,
            final(self).legacy_manifest_dirs == value,
            final(self).output_script == old(self).output_script,
    {
        self.legacy_manifest_dirs = value;
    }

    /// Sets the name of the output script.
    pub fn output_script(&mut self, value: String)
        ensures
            final(self).product_name == old(self).product_name,
            final(self).rel_manifest_dir == old(self).rel_manifest_dir,
            final(self).success_message == old(self).success_message,
            final(self).legacy_manifest_dirs == old(self).legacy_manifest_dirs,
            final(self).output_script == value,
    {
        self.output_script = value;
    }

    /// The installer script for `template`, to be written to `output_script`.
    pub fn run(&self, template: &str) -> (r: String)
        ensures
            r@ == self.spec_script(template@),
    {
        proof {
            reveal_strlit("-");
            reveal_strlit("%%TEMPLATE_PRODUCT_NAME%%");
            reveal_strlit("%%TEMPLATE_REL_MANIFEST_DIR%%");
            reveal_strlit("%%TEMPLATE_SUCCESS_MESSAGE%%");
            reveal_strlit("%%TEMPLATE_LEGACY_MANIFEST_DIRS%%");
            reveal_strlit("%%TEMPLATE_RUST_INSTALLER_VERSION%%");
        }
        let product_name = replace(self.product_name.as_str(), "-", " ");
        let success_message = replace(self.success_message.as_str(), "-", " ");
        let version = to_decimal(RUST_INSTALLER_VERSION as u128);
        let q1 = sh_quote(product_name.as_str());
        let t1 = replace(template, "%%TEMPLATE_PRODUCT_NAME%%", q1.as_str());
        let t2 = replace(t1.as_str(), "%%TEMPLATE_REL_MANIFEST_DIR%%", self.rel_manifest_dir.as_str());
        let q3 = sh_quote(success_message.as_str());
        let t3 = replace(t2.as_str(), "%%TEMPLATE_SUCCESS_MESSAGE%%", q3.as_str());
        let q4 = sh_quote(self.legacy_manifest_dirs.as_str());
        let t4 = replace(t3.as_str(), "%%TEMPLATE_LEGACY_MANIFEST_DIRS%%", q4.as_str());
        let q5 = sh_quote(version.as_str());
        replace(t4.as_str(), "%%TEMPLATE_RUST_INSTALLER_VERSION%%", q5.as_str())
    }
}

} // verus!
