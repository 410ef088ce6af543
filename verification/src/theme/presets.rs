//! Ready-made custom themes.
use vstd::prelude::*;
use crate::text::owned;
use super::{opt_view, palette, CustomTheme, ThemeColors};

verus! {

/// The palette of the Ocean Blue theme.
pub open spec fn ocean_blue_palette() -> Seq<Seq<char>> {
    seq!["#0284c7"@, "#f0f9ff"@, "#e0f2fe"@, "#0c4a6e"@, "#f0f9ff"@, "#0c4a6e"@, "#ffffff"@, "#0c4a6e"@, "#ffffff"@, "#0c4a6e"@, "#bae6fd"@, "#bae6fd"@, "#e0f2fe"@, "#0369a1"@, "#e0f2fe"@, "#0c4a6e"@, "#dc2626"@, "#ffffff"@, "#16a34a"@, "#d97706"@, "#dc2626"@]
}

/// The Ocean Blue theme.
pub fn ocean_blue() -> (t: CustomTheme)
    ensures
        t.name@ == "Ocean Blue"@,
        opt_view(t.description) == Some("清新的海洋蓝主题"@),
        t.author is None,
        palette(&t.colors) == ocean_blue_palette(),
{
    CustomTheme::new("Ocean Blue").with_description("清新的海洋蓝主题").with_colors(ThemeColors {
        primary: owned("#0284c7"),
        primary_foreground: owned("#f0f9ff"),
        secondary: owned("#e0f2fe"),
        secondary_foreground: owned("#0c4a6e"),
        background: owned("#f0f9ff"),
        foreground: owned("#0c4a6e"),
        card: owned("#ffffff"),
        card_foreground: owned("#0c4a6e"),
        popover: owned("#ffffff"),
        popover_foreground: owned("#0c4a6e"),
        border: owned("#bae6fd"),
        input: owned("#bae6fd"),
        muted: owned("#e0f2fe"),
        muted_foreground: owned("#0369a1"),
        accent: owned("#e0f2fe"),
        accent_foreground: owned("#0c4a6e"),
        destructive: owned("#dc2626"),
        destructive_foreground: owned("#ffffff"),
        success: owned("#16a34a"),
        warning: owned("#d97706"),
        error: owned("#dc2626"),
    })
}

/// The palette of the Forest Green theme.
pub open spec fn forest_green_palette() -> Seq<Seq<char>> {
    seq!["#15803d"@, "#f0fdf4"@, "#dcfce7"@, "#14532d"@, "#f0fdf4"@, "#14532d"@, "#ffffff"@, "#14532d"@, "#ffffff"@, "#14532d"@, "#bbf7d0"@, "#bbf7d0"@, "#dcfce7"@, "#166534"@, "#dcfce7"@, "#14532d"@, "#dc2626"@, "#ffffff"@, "#16a34a"@, "#d97706"@, "#dc2626"@]
}

/// The Forest Green theme.
pub fn forest_green() -> (t: CustomTheme)
    ensures
        t.name@ == "Forest Green"@,
        opt_view(t.description) == Some("自然的森林绿主题"@),
        t.author is None,
        palette(&t.colors) == forest_green_palette(),
{
    CustomTheme::new("Forest Green").with_description("自然的森林绿主题").with_colors(ThemeColors {
        primary: owned("#15803d"),
        primary_foreground: owned("#f0fdf4"),
        secondary: owned("#dcfce7"),
        secondary_foreground: owned("#14532d"),
        background: owned("#f0fdf4"),
        foreground: owned("#14532d"),
        card: owned("#ffffff"),
        card_foreground: owned("#14532d"),
        popover: owned("#ffffff"),
        popover_foreground: owned("#14532d"),
        border: owned("#bbf7d0"),
        input: owned("#bbf7d0"),
        muted: owned("#dcfce7"),
        muted_foreground: owned("#166534"),
        accent: owned("#dcfce7"),
        accent_foreground: owned("#14532d"),
        destructive: owned("#dc2626"),
        destructive_foreground: owned("#ffffff"),
        success: owned("#16a34a"),
        warning: owned("#d97706"),
        error: owned("#dc2626"),
    })
}

/// The palette of the Violet theme.
pub open spec fn violet_palette() -> Seq<Seq<char>> {
    seq!["#7c3aed"@, "#faf5ff"@, "#ede9fe"@, "#4c1d95"@, "#faf5ff"@, "#4c1d95"@, "#ffffff"@, "#4c1d95"@, "#ffffff"@, "#4c1d95"@, "#ddd6fe"@, "#ddd6fe"@, "#ede9fe"@, "#6d28d9"@, "#ede9fe"@, "#4c1d95"@, "#dc2626"@, "#ffffff"@, "#16a34a"@, "#d97706"@, "#dc2626"@]
}

/// The Violet theme.
pub fn violet() -> (t: CustomTheme)
    ensures
        t.name@ == "Violet"@,
        opt_view(t.description) == Some("优雅的紫罗兰主题"@),
        t.author is None,
        palette(&t.colors) == violet_palette(),
{
    CustomTheme::new("Violet").with_description("优雅的紫罗兰主题").with_colors(ThemeColors {
        primary: owned("#7c3aed"),
        primary_foreground: owned("#faf5ff"),
        secondary: owned("#ede9fe"),
        secondary_foreground: owned("#4c1d95"),
        background: owned("#faf5ff"),
        foreground: owned("#4c1d95"),
        card: owned("#ffffff"),
        card_foreground: owned("#4c1d95"),
        popover: owned("#ffffff"),
        popover_foreground: owned("#4c1d95"),
        border: owned("#ddd6fe"),
        input: owned("#ddd6fe"),
        muted: owned("#ede9fe"),
        muted_foreground: owned("#6d28d9"),
        accent: owned("#ede9fe"),
        accent_foreground: owned("#4c1d95"),
        destructive: owned("#dc2626"),
        destructive_foreground: owned("#ffffff"),
        success: owned("#16a34a"),
        warning: owned("#d97706"),
        error: owned("#dc2626"),
    })
}

/// The palette of the Midnight theme.
pub open spec fn midnight_palette() -> Seq<Seq<char>> {
    seq!["#60a5fa"@, "#0f172a"@, "#1e293b"@, "#e2e8f0"@, "#0f172a"@, "#e2e8f0"@, "#1e293b"@, "#e2e8f0"@, "#1e293b"@, "#e2e8f0"@, "#334155"@, "#334155"@, "#1e293b"@, "#94a3b8"@, "#1e293b"@, "#e2e8f0"@, "#ef4444"@, "#f8fafc"@, "#22c55e"@, "#f59e0b"@, "#ef4444"@]
}

/// The Midnight theme.
pub fn midnight() -> (t: CustomTheme)
    ensures
        t.name@ == "Midnight"@,
        opt_view(t.description) == Some("深邃的午夜主题"@),
        t.author is None,
        palette(&t.colors) == midnight_palette(),
{
    CustomTheme::new("Midnight").with_description("深邃的午夜主题").with_colors(ThemeColors {
        primary: owned("#60a5fa"),
        primary_foreground: owned("#0f172a"),
        secondary: owned("#1e293b"),
        secondary_foreground: owned("#e2e8f0"),
        background: owned("#0f172a"),
        foreground: owned("#e2e8f0"),
        card: owned("#1e293b"),
        card_foreground: owned("#e2e8f0"),
        popover: owned("#1e293b"),
        popover_foreground: owned("#e2e8f0"),
        border: owned("#334155"),
        input: owned("#334155"),
        muted: owned("#1e293b"),
        muted_foreground: owned("#94a3b8"),
        accent: owned("#1e293b"),
        accent_foreground: owned("#e2e8f0"),
        destructive: owned("#ef4444"),
        destructive_foreground: owned("#f8fafc"),
        success: owned("#22c55e"),
        warning: owned("#f59e0b"),
        error: owned("#ef4444"),
    })
}

} // verus!
