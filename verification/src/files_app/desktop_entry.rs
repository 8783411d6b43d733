//! Desktop integration files: the XDG desktop entry, MIME associations and
//! window manager rules.
use vstd::prelude::*;
use crate::text::{append_str, join_strings, join_with, string_from};

verus! {

/// Represents a Hyprland window rule configuration.
#[derive(Debug, Clone, PartialEq, Eq)]
pub struct HyprlandWindowRule {
    /// Class pattern matcher for the window (e.g., "swal-files")
    pub class_pattern: String,
    /// Rule effect (e.g., "float", "tile", "center", "size 1000 650")
    pub rule_type: String,
}

/// The config line of a rule.
pub open spec fn rule_line(rule_type: Seq<char>, class_pattern: Seq<char>) -> Seq<char> {
    "windowrulev2 = "@ + rule_type + ", class:^("@ + class_pattern + ")$"@
}

impl HyprlandWindowRule {
    /// Creates a new window rule.
    pub fn new(class_pattern: &str, rule_type: &str) -> (r: Self)
        ensures
            r.class_pattern@ == class_pattern@,
            r.rule_type@ == rule_type@,
    {
        HyprlandWindowRule { class_pattern: string_from(class_pattern), rule_type: string_from(rule_type) }
    }

    /// Formats the rule as a config line
    /// (`windowrulev2 = <rule_type>, class:^(<class_pattern>)$`).
    pub fn to_config_line(&self) -> (r: String)
        ensures
            r@ == rule_line(self.rule_type@, self.class_pattern@),
    {
        let mut s = string_from("windowrulev2 = ");
        append_str(&mut s, self.rule_type.as_str());
        append_str(&mut s, ", class:^(");
        append_str(&mut s, self.class_pattern.as_str());
        append_str(&mut s, ")$");
        s
    }
}

/// Integrator for XDG desktop entry files, MIME associations and window rules.
#[derive(Debug, Clone)]
pub struct DesktopIntegration {
    /// Application display name
    pub app_name: String,
    /// Binary executable command line
    pub exec_cmd: String,
    /// Icon identifier name
    pub icon_name: String,
    /// Associated MIME types
    pub mime_types: Vec<String>,
}

/// The MIME types a default integration registers.
pub open spec fn default_mime_types() -> Seq<Seq<char>> {
    seq!["inode/directory"@, "x-scheme-handler/file"@]
}

/// The desktop entry of an application.
pub open spec fn desktop_file(app: Seq<char>, exec: Seq<char>, icon: Seq<char>, mimes: Seq<Seq<char>>) -> Seq<char> {
    let joined = join_with(mimes, ";"@);
    let mime_line = if joined.len() == 0 { Seq::<char>::empty() } else { "MimeType="@ + joined + ";\n"@ };
    "[Desktop Entry]\nType=Application\nName="@ + app + "\nComment=Fluent Mica Wayland File Manager\nExec="@
        + exec + "\nIcon="@ + icon
        + "\nTerminal=false\nCategories=System;FileTools;FileManager;Utility;\nKeywords=file;manager;explorer;browser;folder;\nStartupWMClass=swal-files\n"@
        + mime_line
}

/// The `mimeapps.list` section for the MIME types.
pub open spec fn mime_associations(mimes: Seq<Seq<char>>) -> Seq<char>
    decreases mimes.len(),
{
    if mimes.len() == 0 {
        "[Default Applications]\n"@
    } else {
        mime_associations(mimes.drop_last()) + mimes.last() + "=swal-files.desktop\n"@
    }
}

/// Generates XDG Desktop Entry file contents.
pub fn generate_desktop_file(app_name: &str, exec_cmd: &str, icon_name: &str, mime_types: &Vec<String>) -> (r: String)
    ensures
        r@ == desktop_file(app_name@, exec_cmd@, icon_name@, mime_types@.map_values(|s: String| s@)),
{
    let mime_str = join_strings(mime_types, ";");
    let mut mime_line = String::new();
    if mime_str.as_str().unicode_len() > 0 {
        append_str(&mut mime_line, "MimeType=");
        append_str(&mut mime_line, mime_str.as_str());
        append_str(&mut mime_line, ";\n");
    }
    let mut s = string_from("[Desktop Entry]\nType=Application\nName=");
    append_str(&mut s, app_name);
    append_str(&mut s, "\nComment=Fluent Mica Wayland File Manager\nExec=");
    append_str(&mut s, exec_cmd);
    append_str(&mut s, "\nIcon=");
    append_str(&mut s, icon_name);
    append_str(
        &mut s,
        "\nTerminal=false\nCategories=System;FileTools;FileManager;Utility;\nKeywords=file;manager;explorer;browser;folder;\nStartupWMClass=swal-files\n",
    );
    append_str(&mut s, mime_line.as_str());
    s
}

impl Default for DesktopIntegration {
    fn default() -> (r: Self)
        ensures
            r.app_name@ == "SWAL Files"@,
            r.exec_cmd@ == "swal-files %U"@,
            r.icon_name@ == "folder-open"@,
            r.mime_types@.map_values(|s: String| s@) == default_mime_types(),
    {
        let mut mime_types: Vec<String> = Vec::new();
        mime_types.push(string_from("inode/directory"));
        mime_types.push(string_from("x-scheme-handler/file"));
        assert(mime_types@.map_values(|s: String| s@) =~= default_mime_types());
        DesktopIntegration {
            app_name: string_from("SWAL Files"),
            exec_cmd: string_from("swal-files %U"),
            icon_name: string_from("folder-open"),
            mime_types,
        }
    }
}

impl DesktopIntegration {
    /// Creates an integration with the given name and command and the default
    /// icon and MIME types.
    pub fn new(app_name: &str, exec_cmd: &str) -> (r: Self)
        ensures
            r.app_name@ == app_name@,
            r.exec_cmd@ == exec_cmd@,
            r.icon_name@ == "folder-open"@,
            r.mime_types@.map_values(|s: String| s@) == default_mime_types(),
    {
        let d = Self::default();
        DesktopIntegration {
            app_name: string_from(app_name),
            exec_cmd: string_from(exec_cmd),
            icon_name: d.icon_name,
            mime_types: d.mime_types,
        }
    }

    /// Generates the `.desktop` file content of this integration.
    pub fn generate_desktop_entry(&self) -> (r: String)
        ensures
            r@ == desktop_file(
                self.app_name@,
                self.exec_cmd@,
                self.icon_name@,
                self.mime_types@.map_values(|s: String| s@),
            ),
    {
        generate_desktop_file(self.app_name.as_str(), self.exec_cmd.as_str(), self.icon_name.as_str(), &self.mime_types)
    }

    /// Generates window rules for floating or tiling mode.
    pub fn generate_hyprland_rules(&self, floating: bool) -> (r: Vec<HyprlandWindowRule>)
        ensures
            r@.map_values(|x: HyprlandWindowRule| (x.class_pattern@, x.rule_type@)) == if floating {
                seq![("swal-files"@, "float"@), ("swal-files"@, "center"@), ("swal-files"@, "size 1000 650"@)]
            } else {
                seq![("swal-files"@, "tile"@)]
            },
    {
        let mut v: Vec<HyprlandWindowRule> = Vec::new();
        if floating {
            v.push(HyprlandWindowRule::new("swal-files", "float"));
            v.push(HyprlandWindowRule::new("swal-files", "center"));
            v.push(HyprlandWindowRule::new("swal-files", "size 1000 650"));
        } else {
            v.push(HyprlandWindowRule::new("swal-files", "tile"));
        }
        assert(v@.map_values(|x: HyprlandWindowRule| (x.class_pattern@, x.rule_type@)) =~= if floating {
            seq![("swal-files"@, "float"@), ("swal-files"@, "center"@), ("swal-files"@, "size 1000 650"@)]
        } else {
            seq![("swal-files"@, "tile"@)]
        });
        v
    }

    /// Generates the `mimeapps.list` default application section.
    pub fn generate_mime_associations(&self) -> (r: String)
        ensures
            r@ == mime_associations(self.mime_types@.map_values(|s: String| s@)),
    {
        let ghost mv = self.mime_types@.map_values(|s: String| s@);
        let mut out = string_from("[Default Applications]\n");
        let mut i: usize = 0;
        while i < self.mime_types.len()
            invariant
                i <= self.mime_types.len(),
                mv == self.mime_types@.map_values(|s: String| s@),
                out@ == mime_associations(mv.take(i as int)),
            decreases self.mime_types.len() - i,
        {
            assert(mv.take(i + 1).drop_last() =~= mv.take(i as int));
            append_str(&mut out, self.mime_types[i].as_str());
            append_str(&mut out, "=swal-files.desktop\n");
            i += 1;
        }
        assert(mv.take(self.mime_types.len() as int) =~= mv);
        out
    }
}

} // verus!
