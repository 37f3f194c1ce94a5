use openrust_core::latex::latex_to_unicode;


#[test]
fn greek_letters() {
    assert_eq!(latex_to_unicode(r"\alpha + \beta"), "α + β");
    assert_eq!(latex_to_unicode(r"\Gamma \Delta"), "Γ Δ");
}

#[test]
fn superscripts() {
    assert_eq!(latex_to_unicode(r"x^2"), "x²");
    assert_eq!(latex_to_unicode(r"2^{10}"), "2¹⁰");
    assert_eq!(latex_to_unicode(r"e^{i\pi}"), "e^(iπ)");
}

#[test]
fn subscripts() {
    assert_eq!(latex_to_unicode(r"x_n"), "xₙ");
    assert_eq!(latex_to_unicode(r"a_{ij}"), "aᵢⱼ");
}

#[test]
fn fractions() {
    assert_eq!(latex_to_unicode(r"\frac{a}{b}"), "a/b");
    assert_eq!(latex_to_unicode(r"\frac{1}{2}"), "1/2");
    assert_eq!(latex_to_unicode(r"\frac{a+b}{c+d}"), "(a+b)/(c+d)");
    assert_eq!(latex_to_unicode(r"\frac{x}{y+1}"), "x/(y+1)");
}

#[test]
fn sqrt() {
    assert_eq!(latex_to_unicode(r"\sqrt{x}"), "√x");
    assert_eq!(latex_to_unicode(r"\sqrt{x+1}"), "√(x+1)");
}

#[test]
fn operators() {
    assert_eq!(latex_to_unicode(r"\sum_{i=0}^{n}"), "Σᵢ₌₀ⁿ");
    assert_eq!(latex_to_unicode(r"\int_0^1"), "∫₀¹");
    assert_eq!(latex_to_unicode(r"a \times b"), "a × b");
}

#[test]
fn relations() {
    assert_eq!(latex_to_unicode(r"a \leq b"), "a ≤ b");
    assert_eq!(latex_to_unicode(r"x \neq y"), "x ≠ y");
    assert_eq!(latex_to_unicode(r"a \approx b"), "a ≈ b");
}

#[test]
fn arrows() {
    assert_eq!(latex_to_unicode(r"x \to y"), "x → y");
    assert_eq!(latex_to_unicode(r"a \Rightarrow b"), "a ⇒ b");
    assert_eq!(latex_to_unicode(r"f \mapsto g"), "f ↦ g");
}

#[test]
fn mathbb() {
    assert_eq!(latex_to_unicode(r"\mathbb{R}"), "ℝ");
    assert_eq!(latex_to_unicode(r"\mathbb{N}"), "ℕ");
    assert_eq!(latex_to_unicode(r"\mathbb{Z}"), "ℤ");
    assert_eq!(latex_to_unicode(r"\mathbb{E}"), "𝔼");
    assert_eq!(latex_to_unicode(r"\mathbb{A}"), "𝔸");
}

#[test]
fn einstein() {
    assert_eq!(latex_to_unicode(r"E = mc^2"), "E = mc²");
}

#[test]
fn dollar_delimiters() {
    assert_eq!(latex_to_unicode("$E = mc^2$"), "E = mc²");
    assert_eq!(latex_to_unicode("$$\\sum_{i=1}^n x_i$$"), "Σᵢ₌₁ⁿ xᵢ");
}

#[test]
fn unknown_command_falls_through() {
    assert_eq!(latex_to_unicode(r"\foobar"), "foobar");
}

#[test]
fn escaped_special() {
    assert_eq!(latex_to_unicode(r"\{ \} \% \# \&"), "{ } % # &");
}

#[test]
fn nested_groups() {
    assert_eq!(
        latex_to_unicode(r"\frac{\sqrt{x}}{2}"),
        "√x/2"
    );
}

#[test]
fn binom() {
    assert_eq!(latex_to_unicode(r"\binom{n}{k}"), "C(n,k)");
}
