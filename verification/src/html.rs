//! Options and text escaping for HTML rendering.
//!
//! The renderer itself lives with the web layer; the library holds the
//! option record that drives it and the escaping of user text.

use vstd::prelude::*;
use vstd::string::*;

verus! {

/// Options for HTML rendering.
#[derive(Debug, Clone)]
pub struct HtmlOptions {
    /// CSS class for the form element.
    pub form_class: Option<String>,
    /// CSS class for field containers.
    pub field_class: Option<String>,
    /// CSS class for labels.
    pub label_class: Option<String>,
    /// CSS class for input elements.
    pub input_class: Option<String>,
    /// CSS class for error messages.
    pub error_class: Option<String>,
    /// CSS class for help text.
    pub help_class: Option<String>,
    /// CSS class for the submit button.
    pub button_class: Option<String>,
    /// Whether to include a CSRF token field.
    pub include_csrf: bool,
    /// CSRF token value if including.
    pub csrf_token: Option<String>,
    /// Whether to show a required indicator.
    pub show_required_indicator: bool,
    /// Custom action URL (overrides form settings).
    pub action: Option<String>,
    /// Custom method (overrides form settings).
    pub method: Option<String>,
    /// Base URL for client script files; absent means no script loader.
    pub wasm_base_url: Option<String>,
    /// Whether to force multi-step mode (auto-detected if absent).
    pub multi_step: Option<bool>,
    /// Whether to include inline CSS for multi-step forms.
    pub include_styles: bool,
}

impl HtmlOptions {
    /// Creates new default options: the required indicator and the
    /// inline styles on, everything else off or absent.
    pub fn new() -> (r: HtmlOptions)
        ensures
            r.form_class is None,
            r.field_class is None,
            r.label_class is None,
            r.input_class is None,
            r.error_class is None,
            r.help_class is None,
            r.button_class is None,
            !r.include_csrf,
            r.csrf_token is None,
            r.show_required_indicator,
            r.action is None,
            r.method is None,
            r.wasm_base_url is None,
            r.multi_step is None,
            r.include_styles,
    {
        HtmlOptions {
            form_class: None,
            field_class: None,
            label_class: None,
            input_class: None,
            error_class: None,
            help_class: None,
            button_class: None,
            include_csrf: false,
            csrf_token: None,
            show_required_indicator: true,
            action: None,
            method: None,
            wasm_base_url: None,
            multi_step: None,
            include_styles: true,
        }
    }

    /// Sets the form CSS class.
    pub fn form_class(self, class: String) -> (r: HtmlOptions)
        ensures
            r == (HtmlOptions { form_class: Some(class), ..self }),
    {
        HtmlOptions { form_class: Some(class), ..self }
    }

    /// Sets the field container CSS class.
    pub fn field_class(self, class: String) -> (r: HtmlOptions)
        ensures
            r == (HtmlOptions { field_class: Some(class), ..self }),
    {
        HtmlOptions { field_class: Some(class), ..self }
    }

    /// Sets the action URL.
    pub fn action(self, url: String) -> (r: HtmlOptions)
        ensures
            r == (HtmlOptions { action: Some(url), ..self }),
    {
        HtmlOptions { action: Some(url), ..self }
    }

    /// Sets the base URL for client script files; when set, the renderer
    /// includes a loader for client-side step navigation and validation.
    pub fn wasm_base_url(self, url: String) -> (r: HtmlOptions)
        ensures
            r == (HtmlOptions { wasm_base_url: Some(url), ..self }),
    {
        HtmlOptions { wasm_base_url: Some(url), ..self }
    }

    /// Forces multi-step mode on or off (auto-detected by default).
    pub fn multi_step(self, enabled: bool) -> (r: HtmlOptions)
        ensures
            r == (HtmlOptions { multi_step: Some(enabled), ..self }),
    {
        HtmlOptions { multi_step: Some(enabled), ..self }
    }

    /// Whether inline CSS styles are emitted.
    pub fn include_styles(self, enabled: bool) -> (r: HtmlOptions)
        ensures
            r == (HtmlOptions { include_styles: enabled, ..self }),
    {
        HtmlOptions { include_styles: enabled, ..self }
    }
}

/// The replacement one character earns in escaped HTML.
pub open spec fn esc_char(c: char) -> Seq<char> {
    if c == '&' {
        "&amp;"@
    } else if c == '<' {
        "&lt;"@
    } else if c == '>' {
        "&gt;"@
    } else if c == '"' {
        "&quot;"@
    } else if c == '\'' {
        "&#39;"@
    } else {
        seq![c]
    }
}

/// HTML escaping of a string: each character replaced independently.
pub open spec fn html_escape(s: Seq<char>) -> Seq<char>
    decreases s.len(),
{
    if s.len() == 0 {
        Seq::empty()
    } else {
        html_escape(s.drop_last()) + esc_char(s.last())
    }
}

/// Escapes HTML special characters in a string.
#[verifier::loop_isolation(false)]
pub fn escape_html(s: &str) -> (r: String)
    ensures
        r@ == html_escape(s@),
{
    proof {
        reveal_strlit("&amp;");
        reveal_strlit("&lt;");
        reveal_strlit("&gt;");
        reveal_strlit("&quot;");
        reveal_strlit("&#39;");
    }
    let len = s.unicode_len();
    let mut out = String::new();
    let mut i: usize = 0;
    while i < len
        invariant
            0 <= i <= len,
            out@ == html_escape(s@.subrange(0, i as int)),
        decreases len - i,
    {
        let c = s.get_char(i);
        if c == '&' {
            out.append("&amp;");
        } else if c == '<' {
            out.append("&lt;");
        } else if c == '>' {
            out.append("&gt;");
        } else if c == '"' {
            out.append("&quot;");
        } else if c == '\'' {
            out.append("&#39;");
        } else {
            let piece = s.substring_char(i, i + 1);
            proof {
                assert(piece@ =~= seq![s@[i as int]]);
            }
            out.append(piece);
        }
        proof {
            assert(s@.subrange(0, i + 1).drop_last() =~= s@.subrange(0, i as int));
            assert(s@.subrange(0, i + 1).last() == s@[i as int]);
        }
        i = i + 1;
    }
    proof {
        assert(s@.subrange(0, len as int) =~= s@);
    }
    out
}

} // verus!
