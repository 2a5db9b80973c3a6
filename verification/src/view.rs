//! The fallback page for the template-picker overlay, used when the
//! overlay process cannot load its own assets.

use vstd::prelude::*;

verus! {

/// The built-in overlay page.
pub const DEFAULT_OVERLAY_HTML: &'static str = r#"<!DOCTYPE html>
<html lang="en">
<head>
    <meta charset="UTF-8">
    <meta name="viewport" content="width=device-width, initial-scale=1.0">
    <title>Textra Overlay</title>
    <style>
.overlay-container { position: fixed; inset: 0; display: flex; align-items: center; justify-content: center; font-family: 'Segoe UI', sans-serif; }
.overlay-panel { background: #2c3e50; color: #ecf0f1; border-radius: 8px; padding: 16px; width: 80%; max-width: 800px; }
.overlay-header { display: flex; justify-content: space-between; align-items: center; }
.search-input { width: 100%; padding: 8px; border-radius: 4px; border: none; }
.templates-container { max-height: 60vh; overflow-y: auto; margin-top: 12px; }
.keyboard-shortcuts { color: #95a5a6; font-size: 12px; margin-top: 12px; }
    </style>
</head>
<body>
    <div id="overlay" class="overlay-container">
        <div class="overlay-panel">
            <div class="overlay-header">
                <h1>Textra Templates</h1>
                <button class="close-button" id="close-button">&times;</button>
            </div>
            <div class="search-bar">
                <input type="text" class="search-input" placeholder="Search templates..." id="search-input">
            </div>
            <div class="templates-container" id="templates-container">
                 <div class="empty-message">Loading default templates...</div>
            </div>
            <div class="keyboard-shortcuts">
                <p>Press ESC to close | Use arrow keys to navigate | Enter to select</p>
            </div>
        </div>
    </div>
    <script>
document.getElementById('close-button').addEventListener('click', function () {
    window.close();
});
    </script>
</body>
</html>"#;

/// The overlay page used when no page of its own can be loaded.
pub fn get_default_html() -> (r: String)
    ensures
        r@ == DEFAULT_OVERLAY_HTML@,
{
    DEFAULT_OVERLAY_HTML.to_owned()
}

} // verus!
